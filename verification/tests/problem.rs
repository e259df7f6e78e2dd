//! The problem assembler: net registration, connection identifiers,
//! colors, and the override layer.

use pcb_parsing::distinct_color_generator::{color_for_index, DistinctColorGenerator};
use pcb_parsing::pad::{Pad, PadName, PadShape};
use pcb_parsing::parse_to_display_format::{DisplayFormat, DisplayNetInfo, ExtraInfo};
use pcb_parsing::parse_to_pcbproblem::Converter;
use pcb_parsing::pcb_problem::{NetClassName, NetName, PcbProblem};

fn pad(name: &str, x: i64, y: i64) -> Pad {
    Pad {
        name: PadName(name.to_string()),
        position: (x, y),
        shape: PadShape::Circle { diameter: 800_000 },
        rotation: 0,
        clearance: 200_000,
    }
}

fn net(name: &str, pads: Vec<Pad>) -> DisplayNetInfo {
    DisplayNetInfo {
        net_name: NetName(name.to_string()),
        pads,
        net_class_name: NetClassName("default".to_string()),
        default_trace_width: 250_000,
        default_trace_clearance: 200_000,
        via_diameter: 400_000,
    }
}

fn board(nets: Vec<DisplayNetInfo>) -> DisplayFormat {
    DisplayFormat {
        width: 10_000_000,
        height: 20_000_000,
        center: (5_000_000, 10_000_000),
        obstacle_lines: Vec::new(),
        obstacle_polygons: Vec::new(),
        nets,
    }
}

fn empty_extra() -> ExtraInfo {
    ExtraInfo {
        pad_name_to_trace_width: Vec::new(),
        pad_name_to_trace_clearance: Vec::new(),
        net_name_to_source_pad: Vec::new(),
    }
}

#[test]
fn adding_two_nets_with_the_same_name_fails() {
    let mut problem = PcbProblem::new(1, 1, (0, 0));
    assert!(problem
        .add_net(NetName("sig".to_string()), pad("A-1", 0, 0), 1, 1)
        .is_ok());
    assert!(problem
        .add_net(NetName("sig".to_string()), pad("A-2", 0, 0), 1, 1)
        .is_err());
    assert_eq!(problem.nets.len(), 1);
}

#[test]
fn connection_ids_are_distinct_and_increase_in_assignment_order() {
    let mut problem = PcbProblem::new(1, 1, (0, 0));
    problem
        .add_net(NetName("a".to_string()), pad("A-1", 0, 0), 1, 1)
        .unwrap();
    problem
        .add_net(NetName("b".to_string()), pad("B-1", 0, 0), 1, 1)
        .unwrap();
    let c0 = problem
        .add_connection(NetName("a".to_string()), pad("A-2", 0, 0), 1, 1)
        .unwrap();
    let c1 = problem
        .add_connection(NetName("b".to_string()), pad("B-2", 0, 0), 1, 1)
        .unwrap();
    let c2 = problem
        .add_connection(NetName("a".to_string()), pad("A-3", 0, 0), 1, 1)
        .unwrap();
    assert_eq!(c0.0, 0);
    assert_eq!(c1.0, 1);
    assert_eq!(c2.0, 2);
    assert!(c0 != c1 && c1 != c2 && c0 != c2);
}

#[test]
fn connecting_to_a_missing_net_fails() {
    let mut problem = PcbProblem::new(1, 1, (0, 0));
    assert!(problem
        .add_connection(NetName("ghost".to_string()), pad("A-1", 0, 0), 1, 1)
        .is_err());
}

#[test]
fn first_five_colors_are_pairwise_distant() {
    let mut gen = DistinctColorGenerator::new();
    let mut colors = Vec::new();
    for i in 0..5 {
        let c = gen.next();
        assert_eq!(c, color_for_index(i));
        colors.push((
            c.r as f64 / 1e6,
            c.g as f64 / 1e6,
            c.b as f64 / 1e6,
        ));
    }
    for i in 0..5 {
        for j in (i + 1)..5 {
            let (r1, g1, b1) = colors[i];
            let (r2, g2, b2) = colors[j];
            let dist =
                ((r1 - r2).powi(2) + (g1 - g2).powi(2) + (b1 - b2).powi(2)).sqrt();
            assert!(dist > 0.25, "colors {} and {} too close: {}", i, j, dist);
        }
    }
}

#[test]
fn color_sequence_starts_at_full_red() {
    let c = color_for_index(0);
    assert_eq!((c.r, c.g, c.b), (750_000, 150_000, 150_000));
    let c1 = color_for_index(1);
    assert_eq!((c1.r, c1.g, c1.b), (150_000, 325_078, 750_000));
}

#[test]
fn converter_picks_first_pad_and_builds_sinks_in_order() {
    let display = board(vec![net(
        "sig",
        vec![pad("A-1", 0, 0), pad("B-1", 1, 1), pad("C-1", 2, 2)],
    )]);
    let (problem, warnings) = Converter::convert(display, empty_extra()).unwrap();
    assert!(warnings.is_empty());
    assert_eq!(problem.nets.len(), 1);
    let ni = &problem.nets[0];
    assert_eq!(ni.net_name.0, "sig");
    assert_eq!(ni.source.name.0, "A-1");
    assert_eq!(ni.source_trace_width, 250_000);
    assert_eq!(ni.connections.len(), 2);
    assert_eq!(ni.connections[0].sink.name.0, "B-1");
    assert_eq!(ni.connections[1].sink.name.0, "C-1");
    assert_eq!(ni.connections[0].connection_id.0, 0);
    assert_eq!(ni.connections[1].connection_id.0, 1);
}

#[test]
fn source_override_and_trace_overrides_apply() {
    let display = board(vec![net(
        "sig",
        vec![pad("A-1", 0, 0), pad("B-1", 1, 1)],
    )]);
    let extra = ExtraInfo {
        pad_name_to_trace_width: vec![(PadName("A-1".to_string()), 111_000)],
        pad_name_to_trace_clearance: vec![(PadName("B-1".to_string()), 222_000)],
        net_name_to_source_pad: vec![(
            NetName("sig".to_string()),
            PadName("B-1".to_string()),
        )],
    };
    let (problem, warnings) = Converter::convert(display, extra).unwrap();
    assert!(warnings.is_empty());
    let ni = &problem.nets[0];
    assert_eq!(ni.source.name.0, "B-1");
    assert_eq!(ni.source_trace_width, 250_000);
    assert_eq!(ni.source_trace_clearance, 222_000);
    assert_eq!(ni.connections.len(), 1);
    assert_eq!(ni.connections[0].sink.name.0, "A-1");
    assert_eq!(ni.connections[0].sink_trace_width, 111_000);
    assert_eq!(ni.connections[0].sink_trace_clearance, 200_000);
}

#[test]
fn override_naming_an_absent_pad_fails_conversion() {
    let display = board(vec![net(
        "sig",
        vec![pad("A-1", 0, 0), pad("B-1", 1, 1)],
    )]);
    let extra = ExtraInfo {
        pad_name_to_trace_width: Vec::new(),
        pad_name_to_trace_clearance: Vec::new(),
        net_name_to_source_pad: vec![(
            NetName("sig".to_string()),
            PadName("Z-9".to_string()),
        )],
    };
    assert!(Converter::convert(display, extra).is_err());
}

#[test]
fn single_pad_net_warns_and_yields_no_connections() {
    let display = board(vec![net("sig", vec![pad("A-1", 0, 0)])]);
    let (problem, warnings) = Converter::convert(display, empty_extra()).unwrap();
    let ni = &problem.nets[0];
    assert_eq!(ni.connections.len(), 0);
    assert_eq!(warnings.len(), 1);
    assert!(warnings[0].contains("sig"), "warning was: {}", warnings[0]);
}

#[test]
fn net_with_no_pads_is_a_hard_error() {
    let display = board(vec![net("sig", Vec::new())]);
    assert!(Converter::convert(display, empty_extra()).is_err());
}

#[test]
fn duplicate_net_names_fail_conversion() {
    let display = board(vec![
        net("sig", vec![pad("A-1", 0, 0)]),
        net("sig", vec![pad("B-1", 0, 0)]),
    ]);
    assert!(Converter::convert(display, empty_extra()).is_err());
}

#[test]
fn per_net_colors_follow_insertion_order() {
    let display = board(vec![
        net("a", vec![pad("A-1", 0, 0)]),
        net("b", vec![pad("B-1", 0, 0)]),
    ]);
    let (problem, _) = Converter::convert(display, empty_extra()).unwrap();
    assert_eq!(problem.nets[0].color, color_for_index(0));
    assert_eq!(problem.nets[1].color, color_for_index(1));
}

#[test]
fn full_pipeline_produces_the_problem() {
    let text = "(pcb\n  (resolution um 10)\n  (structure (layer F.Cu) (boundary (path pcb 0 0 0 10 0 10 20 0 20)))\n  (placement (component conn (place J1 10 0 front 90) (place J2 0 0 front 0)))\n  (library\n    (image conn (pin round 1 1 0))\n    (padstack round (shape (circle F.Cu 0.8)))\n    (padstack via0 (shape (circle F.Cu 0.4))))\n  (network\n    (net sig (pins J1-1 J2-1))\n    (class default sig (circuit (use_via via0)) (rule (width 0.25) (clearance 0.2))))\n)";
    let (tree, _) = pcb_parsing::parse_to_s_expr::parse_dsn_to_s_expr(text).unwrap();
    let dsn = pcb_parsing::parse_to_struct::parse_s_expr_to_struct(&tree).unwrap();
    let (display, extra) = pcb_parsing::parse_to_display::dsn_to_display(dsn).unwrap();
    let (problem, warnings) = Converter::convert(display, extra).unwrap();
    assert!(warnings.is_empty());
    assert_eq!(problem.width, 10_000_000);
    assert_eq!(problem.nets.len(), 1);
    let ni = &problem.nets[0];
    assert_eq!(ni.source.name.0, "J1-1");
    assert_eq!(ni.source.position, (10_000_000, 1_000_000));
    assert_eq!(ni.connections.len(), 1);
    assert_eq!(ni.connections[0].sink.name.0, "J2-1");
    assert_eq!(ni.connections[0].sink.position, (1_000_000, 0));
}

#[test]
fn connection_ids_are_consecutive_across_nets_in_insertion_order() {
    let display = board(vec![
        net(
            "a",
            vec![pad("A-1", 0, 0), pad("A-2", 1, 1), pad("A-3", 2, 2)],
        ),
        net("b", vec![pad("B-1", 0, 0), pad("B-2", 1, 1)]),
    ]);
    let (problem, _) = Converter::convert(display, empty_extra()).unwrap();
    assert_eq!(problem.nets[0].connections[0].connection_id.0, 0);
    assert_eq!(problem.nets[0].connections[1].connection_id.0, 1);
    assert_eq!(problem.nets[1].connections[0].connection_id.0, 2);
    assert_eq!(problem.next_connection_id, 3);
}

#[test]
fn error_messages_name_the_offending_values() {
    let display = board(vec![net("sig", vec![pad("A-1", 0, 0)])]);
    let extra = ExtraInfo {
        pad_name_to_trace_width: Vec::new(),
        pad_name_to_trace_clearance: Vec::new(),
        net_name_to_source_pad: vec![(
            NetName("sig".to_string()),
            PadName("Z-9".to_string()),
        )],
    };
    let err = match Converter::convert(display, extra) {
        Ok(_) => panic!("expected an error"),
        Err(e) => e,
    };
    assert!(err.contains("Z-9"), "error was: {}", err);
    assert!(err.contains("sig"), "error was: {}", err);
}
