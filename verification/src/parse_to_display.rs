//! From the design model to displayable nets: every pad placed in board
//! coordinates, every net joined to its netclass.

use vstd::prelude::*;

use crate::dsn_struct::{
    dsn_bounded, find_image_v, find_pad_stack_v, micros_in_range, point_in_range, Boundary,
    DsnStruct, DsnStructV, ComponentInstV, ImageV, LibraryV, Net, NetclassV, NetV, Network,
    PadStackV, Pin2, Pin2V, PinV, Shape, ShapeV,
};
use crate::numeric::{dec_digits, usize_to_string, MAX_ABS_MICROS};
use crate::pad::{pads_v, Pad, PadName, PadShape, PadV};
use crate::parse_to_display_format::{
    net_infos_v, DisplayFormat, DisplayNetInfo, DisplayNetInfoV, ExtraInfo,
};
use crate::parse_to_struct::{msg, msg_with};
use crate::pcb_problem::{NetClassName, NetName};
use crate::trig::{rot_x, rot_y, rotate_point};

verus! {

// --- board extent -------------------------------------------------------

pub open spec fn fmin(a: int, b: int) -> int {
    if a <= b {
        a
    } else {
        b
    }
}

pub open spec fn fmax(a: int, b: int) -> int {
    if a >= b {
        a
    } else {
        b
    }
}

/// Half of `a`, truncated toward zero.
pub open spec fn half_toward_zero(a: int) -> int {
    if a >= 0 {
        a / 2
    } else {
        -((-a) / 2)
    }
}

/// Smallest x coordinate among the first `n` boundary points.
pub open spec fn min_x_of(pts: Seq<(i64, i64)>, n: int) -> int
    decreases n,
{
    if n <= 1 {
        pts[0].0 as int
    } else {
        fmin(min_x_of(pts, n - 1), pts[n - 1].0 as int)
    }
}

pub open spec fn max_x_of(pts: Seq<(i64, i64)>, n: int) -> int
    decreases n,
{
    if n <= 1 {
        pts[0].0 as int
    } else {
        fmax(max_x_of(pts, n - 1), pts[n - 1].0 as int)
    }
}

pub open spec fn min_y_of(pts: Seq<(i64, i64)>, n: int) -> int
    decreases n,
{
    if n <= 1 {
        pts[0].1 as int
    } else {
        fmin(min_y_of(pts, n - 1), pts[n - 1].1 as int)
    }
}

pub open spec fn max_y_of(pts: Seq<(i64, i64)>, n: int) -> int
    decreases n,
{
    if n <= 1 {
        pts[0].1 as int
    } else {
        fmax(max_y_of(pts, n - 1), pts[n - 1].1 as int)
    }
}

/// The board's width, height, and center: the extent of the boundary's
/// bounding box.  Fails exactly on an empty or out-of-range boundary.
pub fn calculate_boundary(boundary: &Boundary) -> (r: Result<(i64, i64, (i64, i64)), String>)
    requires
        forall|i: int|
            0 <= i < boundary.0@.len() ==> point_in_range(#[trigger] boundary.0@[i]),
    ensures
        r is Ok <==> boundary.0@.len() > 0,
        r is Ok ==> {
            let pts = boundary.0@;
            let n = pts.len() as int;
            &&& (r->Ok_0).0 as int == max_x_of(pts, n) - min_x_of(pts, n)
            &&& (r->Ok_0).1 as int == max_y_of(pts, n) - min_y_of(pts, n)
            &&& (r->Ok_0).2.0 as int == half_toward_zero(min_x_of(pts, n) + max_x_of(pts, n))
            &&& (r->Ok_0).2.1 as int == half_toward_zero(min_y_of(pts, n) + max_y_of(pts, n))
        },
{
    let pts = &boundary.0;
    let n = pts.len();
    if n == 0 {
        return Err(msg("Expected at least one point in the boundary"));
    }
    let mut min_x: i64 = pts[0].0;
    let mut max_x: i64 = pts[0].0;
    let mut min_y: i64 = pts[0].1;
    let mut max_y: i64 = pts[0].1;
    let mut i: usize = 1;
    while i < n
        invariant
            1 <= i <= n == pts@.len(),
            forall|k: int| 0 <= k < pts@.len() ==> point_in_range(#[trigger] pts@[k]),
            min_x as int == min_x_of(pts@, i as int),
            max_x as int == max_x_of(pts@, i as int),
            min_y as int == min_y_of(pts@, i as int),
            max_y as int == max_y_of(pts@, i as int),
            -MAX_ABS_MICROS <= min_x <= max_x <= MAX_ABS_MICROS,
            -MAX_ABS_MICROS <= min_y <= max_y <= MAX_ABS_MICROS,
        decreases n - i,
    {
        let (x, y) = pts[i];
        if x < min_x {
            min_x = x;
        }
        if x > max_x {
            max_x = x;
        }
        if y < min_y {
            min_y = y;
        }
        if y > max_y {
            max_y = y;
        }
        i = i + 1;
    }
    let width = max_x - min_x;
    let height = max_y - min_y;
    let sum_x = min_x + max_x;
    let sum_y = min_y + max_y;
    let cx = if sum_x >= 0 {
        sum_x / 2
    } else {
        -((-sum_x) / 2)
    };
    let cy = if sum_y >= 0 {
        sum_y / 2
    } else {
        -((-sum_y) / 2)
    };
    Ok((width, height, (cx, cy)))
}

// --- pad geometry -------------------------------------------------------

/// A pin's local position rotated by the instance's rotation and moved
/// by `translation`.
pub fn transform_point(point: (i64, i64), rotation_deg: i64, translation: (i64, i64)) -> (r: (
    i64,
    i64,
))
    requires
        point_in_range(point),
        micros_in_range(rotation_deg),
        point_in_range(translation),
    ensures
        r.0 as int == rot_x(point.0 as int, point.1 as int, rotation_deg as int)
            + translation.0 as int,
        r.1 as int == rot_y(point.0 as int, point.1 as int, rotation_deg as int)
            + translation.1 as int,
        -3 * MAX_ABS_MICROS <= r.0 <= 3 * MAX_ABS_MICROS,
        -3 * MAX_ABS_MICROS <= r.1 <= 3 * MAX_ABS_MICROS,
{
    let rotated = rotate_point(point.0, point.1, rotation_deg);
    (rotated.0 + translation.0, rotated.1 + translation.1)
}

/// Whether a rectangle's corner coordinates are all in range.
pub open spec fn shape_in_range(s: ShapeV) -> bool {
    match s {
        ShapeV::Rect { x_min, y_min, x_max, y_max } => micros_in_range(x_min) && micros_in_range(
            y_min,
        ) && micros_in_range(x_max) && micros_in_range(y_max),
        _ => true,
    }
}

/// The pad footprint a library shape lowers to: a circle stays a
/// circle; a rectangle becomes its width and height, assumed centered;
/// a polygon is approximated by a square of the aperture width with
/// square corners, a documented loss of its true outline.
pub open spec fn pad_shape_of(s: ShapeV) -> PadShape {
    match s {
        ShapeV::Circle { diameter } => PadShape::Circle { diameter },
        ShapeV::Rect { x_min, y_min, x_max, y_max } => PadShape::Rectangle {
            width: (x_max - x_min) as i64,
            height: (y_max - y_min) as i64,
        },
        ShapeV::Polygon { aperture_width, vertices } => PadShape::RoundRect {
            width: aperture_width,
            height: aperture_width,
            corner_radius: 0,
        },
    }
}

/// Whether a shape lowers at all: a polygon needs three vertices.
pub open spec fn shape_convertible(s: ShapeV) -> bool {
    match s {
        ShapeV::Polygon { aperture_width, vertices } => vertices.len() >= 3,
        _ => true,
    }
}

/// Lowers a library shape to a pad footprint.
pub fn convert_shape(shape: &Shape) -> (r: Result<PadShape, String>)
    requires
        shape_in_range(shape@),
    ensures
        r is Ok <==> shape_convertible(shape@),
        r is Ok ==> r->Ok_0 == pad_shape_of(shape@),
{
    match shape {
        Shape::Circle { diameter } => Ok(PadShape::Circle { diameter: *diameter }),
        Shape::Rect { x_min, y_min, x_max, y_max } => Ok(
            PadShape::Rectangle { width: *x_max - *x_min, height: *y_max - *y_min },
        ),
        Shape::Polygon { aperture_width, vertices } => {
            if vertices.len() < 3 {
                return Err(msg("Polygon must have at least 3 vertices"));
            }
            Ok(
                PadShape::RoundRect {
                    width: *aperture_width,
                    height: *aperture_width,
                    corner_radius: 0,
                },
            )
        },
    }
}

// --- the pad map --------------------------------------------------------

/// One pad placed in board coordinates, before any net is attached.
#[derive(Debug)]
pub struct TransformedPad {
    pub component_name: String,
    pub pin_number: usize,
    pub position: (i64, i64),
    pub shape: PadShape,
    pub rotation: i64,
}

pub struct TransformedPadV {
    pub component_name: Seq<char>,
    pub pin_number: usize,
    pub position: (i64, i64),
    pub shape: PadShape,
    pub rotation: i64,
}

impl View for TransformedPad {
    type V = TransformedPadV;

    open spec fn view(&self) -> TransformedPadV {
        TransformedPadV {
            component_name: self.component_name@,
            pin_number: self.pin_number,
            position: self.position,
            shape: self.shape,
            rotation: self.rotation,
        }
    }
}

pub open spec fn tpads_v(s: Seq<TransformedPad>) -> Seq<TransformedPadV> {
    Seq::new(s.len(), |i: int| s[i]@)
}

/// Index of the first pad keyed by this reference and pin number.
pub open spec fn tpad_index(
    m: Seq<TransformedPadV>,
    name: Seq<char>,
    pin: usize,
    i: int,
) -> int
    decreases m.len() - i,
{
    if 0 <= i < m.len() {
        if m[i].component_name == name && m[i].pin_number == pin {
            i
        } else {
            tpad_index(m, name, pin, i + 1)
        }
    } else {
        m.len() as int
    }
}

/// A later pad with the same reference and pin number replaces the
/// earlier one.
pub open spec fn upsert_tpad(m: Seq<TransformedPadV>, p: TransformedPadV) -> Seq<
    TransformedPadV,
> {
    let i = tpad_index(m, p.component_name, p.pin_number, 0);
    if i < m.len() {
        m.update(i, p)
    } else {
        m.push(p)
    }
}

pub open spec fn find_tpad(m: Seq<TransformedPadV>, name: Seq<char>, pin: usize) -> Option<
    TransformedPadV,
> {
    let i = tpad_index(m, name, pin, 0);
    if i < m.len() {
        Some(m[i])
    } else {
        None
    }
}

/// The resolved pad of one placed instance and one library pin.
pub open spec fn transformed_pad_of(
    inst: ComponentInstV,
    pin: PinV,
    ps: PadStackV,
) -> TransformedPadV {
    TransformedPadV {
        component_name: inst.reference,
        pin_number: pin.pin_number,
        position: (
            (rot_x(pin.position.0 as int, pin.position.1 as int, inst.rotation as int)
                + inst.position.0) as i64,
            (rot_y(pin.position.0 as int, pin.position.1 as int, inst.rotation as int)
                + inst.position.1) as i64,
        ),
        shape: pad_shape_of(ps.shape),
        rotation: inst.rotation,
    }
}

/// Adds the pads of one instance, pin by pin, to the map.
pub open spec fn pads_of_pins(
    m: Seq<TransformedPadV>,
    lib: LibraryV,
    inst: ComponentInstV,
    pins: Seq<PinV>,
    k: int,
) -> Seq<TransformedPadV>
    decreases pins.len() - k,
{
    if 0 <= k < pins.len() {
        let ps = find_pad_stack_v(lib.pad_stacks, pins[k].pad_stack_name).unwrap();
        pads_of_pins(upsert_tpad(m, transformed_pad_of(inst, pins[k], ps)), lib, inst, pins, k + 1)
    } else {
        m
    }
}

/// Adds the pads of one component's instances to the map.
pub open spec fn pads_of_instances(
    m: Seq<TransformedPadV>,
    lib: LibraryV,
    image: ImageV,
    insts: Seq<ComponentInstV>,
    j: int,
) -> Seq<TransformedPadV>
    decreases insts.len() - j,
{
    if 0 <= j < insts.len() {
        pads_of_instances(pads_of_pins(m, lib, insts[j], image.pins, 0), lib, image, insts, j + 1)
    } else {
        m
    }
}

/// Adds the pads of the components from `ci` on to the map.
pub open spec fn pad_map_from(m: Seq<TransformedPadV>, d: DsnStructV, ci: int) -> Seq<
    TransformedPadV,
>
    decreases d.placement.components.len() - ci,
{
    if 0 <= ci < d.placement.components.len() {
        let comp = d.placement.components[ci];
        let image = find_image_v(d.library.images, comp.name).unwrap();
        pad_map_from(pads_of_instances(m, d.library, image, comp.instances, 0), d, ci + 1)
    } else {
        m
    }
}

/// The flat pad map of the whole design: every placed instance's pins,
/// resolved; a later instance with the same reference and pin number
/// replaces the earlier pad.
#[verifier::opaque]
pub open spec fn pad_map_of(d: DsnStructV) -> Seq<TransformedPadV> {
    pad_map_from(Seq::empty(), d, 0)
}

/// Whether one placed instance's pins all resolve: each pin's pad
/// stack exists and its shape lowers.
pub open spec fn instance_pins_resolve(d: DsnStructV, image: ImageV, j: int) -> bool {
    forall|k: int|
        0 <= k < image.pins.len() ==> {
            let ps = find_pad_stack_v(
                d.library.pad_stacks,
                (#[trigger] image.pins[k]).pad_stack_name,
            );
            &&& ps is Some
            &&& shape_convertible(ps.unwrap().shape)
        }
}

/// Whether one component resolves: its image exists and, for each
/// placed instance, every pin resolves.
pub open spec fn component_resolves(d: DsnStructV, ci: int) -> bool {
    let comp = d.placement.components[ci];
    &&& find_image_v(d.library.images, comp.name) is Some
    &&& forall|j: int|
        0 <= j < comp.instances.len() ==> instance_pins_resolve(
            d,
            find_image_v(d.library.images, comp.name).unwrap(),
            j,
        )
}

/// Whether every placed component resolves, so the pad map builds.
pub open spec fn pad_map_ok(d: DsnStructV) -> bool {
    forall|ci: int|
        0 <= ci < d.placement.components.len() ==> #[trigger] component_resolves(d, ci)
}

/// Replaces the pad keyed like `p`, or appends it.
fn upsert_tpad_exec(m: &mut Vec<TransformedPad>, p: TransformedPad)
    ensures
        tpads_v(final(m)@) == upsert_tpad(tpads_v(old(m)@), p@),
{
    let ghost mv = tpads_v(old(m)@);
    let n = m.len();
    let mut i: usize = 0;
    while i < n
        invariant
            0 <= i <= n == m.len(),
            *m == *old(m),
            mv == tpads_v(m@),
            tpad_index(mv, p@.component_name, p@.pin_number, 0) == tpad_index(
                mv,
                p@.component_name,
                p@.pin_number,
                i as int,
            ),
        decreases n - i,
    {
        if m[i].component_name == p.component_name && m[i].pin_number == p.pin_number {
            assert(tpad_index(mv, p@.component_name, p@.pin_number, 0) == i);
            m.set(i, p);
            proof {
                assert(tpads_v(m@) =~= upsert_tpad(mv, p@));
            }
            return ;
        }
        i = i + 1;
    }
    assert(tpad_index(mv, p@.component_name, p@.pin_number, 0) == mv.len());
    m.push(p);
    proof {
        assert(tpads_v(m@) =~= upsert_tpad(mv, p@));
    }
}

/// Builds the flat pad map: for every placed instance, every pin of its
/// image, rotated by the instance's rotation and moved to its position.
/// Fails exactly when a referenced image or pad stack is absent, or a
/// pad stack's shape does not lower.
pub fn build_pad_map(dsn: &DsnStruct) -> (r: Result<Vec<TransformedPad>, String>)
    requires
        dsn_bounded(dsn@),
    ensures
        r is Ok <==> pad_map_ok(dsn@),
        r is Ok ==> tpads_v((r->Ok_0)@) == pad_map_of(dsn@),
{
    let mut pad_map: Vec<TransformedPad> = Vec::new();
    let comps = &dsn.placement.components;
    let n = comps.len();
    proof {
        reveal(pad_map_of);
        assert(tpads_v(pad_map@) =~= Seq::<TransformedPadV>::empty());
    }
    let mut ci: usize = 0;
    while ci < n
        invariant
            0 <= ci <= n == comps@.len(),
            dsn_bounded(dsn@),
            crate::dsn_struct::components_v(comps@) == dsn@.placement.components,
            forall|a: int| 0 <= a < ci ==> component_resolves(dsn@, a),
            pad_map_of(dsn@) == pad_map_from(tpads_v(pad_map@), dsn@, ci as int),
        decreases n - ci,
    {
        let comp = &comps[ci];
        proof {
            assert(dsn@.placement.components[ci as int] == comp@);
        }
        let image = match dsn.library.find_image(&comp.name) {
            Some(img) => img,
            None => {
                proof {
                    assert(!component_resolves(dsn@, ci as int));
                }
                return Err(msg_with("Image not found: ", &comp.name));
            },
        };
        let ghost m_comp = tpads_v(pad_map@);
        let insts = &comp.instances;
        let m1 = insts.len();
        let mut j: usize = 0;
        while j < m1
            invariant
                0 <= j <= m1 == insts@.len(),
                dsn_bounded(dsn@),
                0 <= ci < dsn@.placement.components.len(),
                comp@ == dsn@.placement.components[ci as int],
                crate::dsn_struct::instances_v(insts@) == comp@.instances,
                find_image_v(dsn@.library.images, comp@.name) == Some(image@),
                forall|k: int| 0 <= k < j ==> instance_pins_resolve(dsn@, image@, k),
                pads_of_instances(m_comp, dsn@.library, image@, comp@.instances, 0)
                    == pads_of_instances(
                    tpads_v(pad_map@),
                    dsn@.library,
                    image@,
                    comp@.instances,
                    j as int,
                ),
            decreases m1 - j,
        {
            let inst = &insts[j];
            proof {
                assert(comp@.instances[j as int] == inst@);
            }
            let ghost m_inst = tpads_v(pad_map@);
            let pins = &image.pins;
            let m2 = pins.len();
            let mut k: usize = 0;
            while k < m2
                invariant
                    0 <= k <= m2 == pins@.len(),
                    dsn_bounded(dsn@),
                    0 <= ci < dsn@.placement.components.len(),
                    comp@ == dsn@.placement.components[ci as int],
                    0 <= j < comp@.instances.len(),
                    inst@ == comp@.instances[j as int],
                    find_image_v(dsn@.library.images, comp@.name) == Some(image@),
                    crate::dsn_struct::pins_v(pins@) == image@.pins,
                    forall|x: int|
                        0 <= x < k ==> {
                            let ps = find_pad_stack_v(
                                dsn@.library.pad_stacks,
                                (#[trigger] image@.pins[x]).pad_stack_name,
                            );
                            &&& ps is Some
                            &&& shape_convertible(ps.unwrap().shape)
                        },
                    pads_of_pins(m_inst, dsn@.library, inst@, image@.pins, 0) == pads_of_pins(
                        tpads_v(pad_map@),
                        dsn@.library,
                        inst@,
                        image@.pins,
                        k as int,
                    ),
                decreases m2 - k,
            {
                let pin = &pins[k];
                proof {
                    assert(image@.pins[k as int] == pin@);
                }
                let pad_stack = match dsn.library.find_pad_stack(&pin.pad_stack_name) {
                    Some(ps) => ps,
                    None => {
                        proof {
                            assert(!instance_pins_resolve(dsn@, image@, j as int));
                            assert(find_image_v(dsn@.library.images, comp@.name).unwrap()
                                == image@);
                            assert(!component_resolves(dsn@, ci as int));
                        }
                        return Err(msg_with("Pad stack not found: ", &pin.pad_stack_name));
                    },
                };
                proof {
                    crate::dsn_struct::lemma_pad_stack_index_bounds(
                        dsn@.library.pad_stacks,
                        pin@.pad_stack_name,
                        0,
                    );
                    let idx = crate::dsn_struct::pad_stack_index(
                        dsn@.library.pad_stacks,
                        pin@.pad_stack_name,
                        0,
                    );
                    assert(find_pad_stack_v(dsn@.library.pad_stacks, pin@.pad_stack_name)
                        == Some(pad_stack@));
                    assert(dsn@.library.pad_stacks[idx] == pad_stack@);
                    assert(shape_in_range(pad_stack@.shape));
                }
                let shape = match convert_shape(&pad_stack.shape) {
                    Ok(sh) => sh,
                    Err(e) => {
                        proof {
                            assert(!instance_pins_resolve(dsn@, image@, j as int));
                            assert(find_image_v(dsn@.library.images, comp@.name).unwrap()
                                == image@);
                            assert(!component_resolves(dsn@, ci as int));
                        }
                        return Err(e);
                    },
                };
                proof {
                    crate::dsn_struct::lemma_image_index_bounds(
                        dsn@.library.images,
                        comp@.name,
                        0,
                    );
                    let iidx = crate::dsn_struct::image_index(
                        dsn@.library.images,
                        comp@.name,
                        0,
                    );
                    assert(dsn@.library.images[iidx] == image@);
                    assert(dsn@.library.images[iidx].pins[k as int] == pin@);
                    assert(point_in_range(pin@.position));
                    assert(dsn@.placement.components[ci as int].instances[j as int] == inst@);
                    assert(point_in_range(inst@.position));
                    assert(micros_in_range(inst@.rotation));
                }
                let position = transform_point(pin.position, inst.rotation, inst.position);
                let tp = TransformedPad {
                    component_name: inst.reference.clone(),
                    pin_number: pin.pin_number,
                    position,
                    shape,
                    rotation: inst.rotation,
                };
                proof {
                    assert(tp@ == transformed_pad_of(inst@, pin@, pad_stack@));
                }
                upsert_tpad_exec(&mut pad_map, tp);
                k = k + 1;
            }
            proof {
                assert(instance_pins_resolve(dsn@, image@, j as int));
            }
            j = j + 1;
        }
        proof {
            assert(component_resolves(dsn@, ci as int));
        }
        ci = ci + 1;
    }
    proof {
        assert(pad_map_ok(dsn@));
    }
    Ok(pad_map)
}

// --- pads for net pins --------------------------------------------------

/// Whether net `n` lists the pin `p`.
pub open spec fn net_contains_pin(n: NetV, p: Pin2V) -> bool {
    exists|k: int| 0 <= k < n.pins.len() && #[trigger] n.pins[k] == p
}

/// The name of the last net up to index `i` that lists `p`.
pub open spec fn net_of_pin_upto(nets: Seq<NetV>, p: Pin2V, i: int) -> Option<Seq<char>>
    decreases (if i >= 0 {
        i + 1
    } else {
        0
    }),
{
    if 0 <= i < nets.len() {
        if net_contains_pin(nets[i], p) {
            Some(nets[i].name)
        } else {
            net_of_pin_upto(nets, p, i - 1)
        }
    } else {
        None
    }
}

/// The net a pin belongs to; when several nets list it, the last one
/// wins, mirroring map insertion order.
pub open spec fn net_of_pin(nets: Seq<NetV>, p: Pin2V) -> Option<Seq<char>> {
    net_of_pin_upto(nets, p, nets.len() - 1)
}

/// Whether a member list holds `name`.
pub open spec fn names_hold(names: Seq<Seq<char>>, name: Seq<char>) -> bool {
    exists|k: int| 0 <= k < names.len() && #[trigger] names[k] == name
}

/// The clearance of the last netclass up to `i` that lists `name`.
pub open spec fn clearance_of_net_upto(ncs: Seq<NetclassV>, name: Seq<char>, i: int) -> Option<
    i64,
>
    decreases (if i >= 0 {
        i + 1
    } else {
        0
    }),
{
    if 0 <= i < ncs.len() {
        if names_hold(ncs[i].net_names, name) {
            Some(ncs[i].clearance)
        } else {
            clearance_of_net_upto(ncs, name, i - 1)
        }
    } else {
        None
    }
}

/// The clearance a net's pads inherit; when several netclasses list the
/// net, the last one wins, mirroring map insertion order.
pub open spec fn clearance_of_net(ncs: Seq<NetclassV>, name: Seq<char>) -> Option<i64> {
    clearance_of_net_upto(ncs, name, ncs.len() - 1)
}

/// The clearance attached to one pin's pad; zero when the pin belongs
/// to no net or its net to no class.
pub open spec fn pin_clearance(d: DsnStructV, p: Pin2V) -> i64 {
    match net_of_pin(d.network.nets, p) {
        Some(nn) => match clearance_of_net(d.network.netclasses, nn) {
            Some(c) => c,
            None => 0,
        },
        None => 0,
    }
}

/// The pad name `REFERENCE-PINNUMBER`.
pub open spec fn pad_key_of(name: Seq<char>, pin: int) -> Seq<char> {
    name + seq!['-'] + dec_digits(pin)
}

/// The display pad of one net pin: the resolved position and shape from
/// the pad map, under the dashed name, with the net's clearance.
#[verifier::opaque]
pub open spec fn pad_for_pin(d: DsnStructV, p: Pin2V) -> PadV {
    let t = find_tpad(pad_map_of(d), p.component_name, p.pin_number).unwrap();
    PadV {
        name: pad_key_of(p.component_name, p.pin_number as int),
        position: t.position,
        shape: t.shape,
        rotation: t.rotation,
        clearance: pin_clearance(d, p),
    }
}

/// Whether every pin of the run is in the pad map.
pub open spec fn pins_resolve(d: DsnStructV, pins: Seq<Pin2V>) -> bool {
    forall|j: int|
        0 <= j < pins.len() ==> find_tpad(
            pad_map_of(d),
            (#[trigger] pins[j]).component_name,
            pins[j].pin_number,
        ) is Some
}

/// Looks a pad up by reference and pin number.
fn find_tpad_exec<'a>(
    m: &'a Vec<TransformedPad>,
    name: &String,
    pin: usize,
) -> (r: Option<&'a TransformedPad>)
    ensures
        match r {
            Some(t) => find_tpad(tpads_v(m@), name@, pin) == Some(t@),
            None => find_tpad(tpads_v(m@), name@, pin) is None,
        },
{
    let ghost mv = tpads_v(m@);
    let n = m.len();
    let mut i: usize = 0;
    while i < n
        invariant
            0 <= i <= n == m.len(),
            mv == tpads_v(m@),
            tpad_index(mv, name@, pin, 0) == tpad_index(mv, name@, pin, i as int),
        decreases n - i,
    {
        if m[i].component_name == *name && m[i].pin_number == pin {
            assert(tpad_index(mv, name@, pin, 0) == i);
            return Some(&m[i]);
        }
        i = i + 1;
    }
    assert(tpad_index(mv, name@, pin, 0) == mv.len());
    None
}

/// Decides whether net `n` lists the pin.
fn net_has_pin(n: &Net, p: &Pin2) -> (r: bool)
    ensures
        r == net_contains_pin(n@, p@),
{
    let m = n.pins.len();
    let mut k: usize = 0;
    while k < m
        invariant
            0 <= k <= m == n.pins@.len(),
            forall|x: int| 0 <= x < k ==> #[trigger] crate::dsn_struct::pins2_v(n.pins@)[x]
                != p@,
        decreases m - k,
    {
        if n.pins[k].component_name == p.component_name && n.pins[k].pin_number == p.pin_number {
            proof {
                assert(crate::dsn_struct::pins2_v(n.pins@)[k as int] == p@);
                assert(n@.pins[k as int] == p@);
            }
            return true;
        }
        proof {
            assert(crate::dsn_struct::pins2_v(n.pins@)[k as int] == n.pins@[k as int]@);
        }
        k = k + 1;
    }
    proof {
        assert(n@.pins =~= crate::dsn_struct::pins2_v(n.pins@));
    }
    false
}

/// The name of the net the pin belongs to, the last listing winning.
fn net_for_pin<'a>(nets: &'a Vec<Net>, p: &Pin2) -> (r: Option<&'a String>)
    ensures
        match r {
            Some(s) => net_of_pin(crate::dsn_struct::nets_v(nets@), p@) == Some(s@),
            None => net_of_pin(crate::dsn_struct::nets_v(nets@), p@) is None,
        },
{
    let ghost nv = crate::dsn_struct::nets_v(nets@);
    let mut i: usize = nets.len();
    while i > 0
        invariant
            0 <= i <= nets@.len(),
            nv == crate::dsn_struct::nets_v(nets@),
            net_of_pin(nv, p@) == net_of_pin_upto(nv, p@, i as int - 1),
        decreases i,
    {
        i = i - 1;
        if net_has_pin(&nets[i], p) {
            proof {
                assert(nv[i as int] == nets@[i as int]@);
            }
            return Some(&nets[i].name);
        }
        proof {
            assert(nv[i as int] == nets@[i as int]@);
        }
    }
    None
}

/// Decides whether a member list holds the name.
fn names_contain(names: &Vec<String>, name: &String) -> (r: bool)
    ensures
        r == names_hold(crate::dsn_struct::strings_v(names@), name@),
{
    let m = names.len();
    let mut k: usize = 0;
    while k < m
        invariant
            0 <= k <= m == names@.len(),
            forall|x: int|
                0 <= x < k ==> #[trigger] crate::dsn_struct::strings_v(names@)[x] != name@,
        decreases m - k,
    {
        if names[k] == *name {
            proof {
                assert(crate::dsn_struct::strings_v(names@)[k as int] == name@);
            }
            return true;
        }
        proof {
            assert(crate::dsn_struct::strings_v(names@)[k as int] == names@[k as int]@);
        }
        k = k + 1;
    }
    false
}

/// The clearance the pin's net inherits, the last listing winning.
fn clearance_for_net(ncs: &Vec<crate::dsn_struct::Netclass>, name: &String) -> (r: Option<i64>)
    ensures
        r == clearance_of_net(crate::dsn_struct::netclasses_v(ncs@), name@),
{
    let ghost cv = crate::dsn_struct::netclasses_v(ncs@);
    let mut i: usize = ncs.len();
    while i > 0
        invariant
            0 <= i <= ncs@.len(),
            cv == crate::dsn_struct::netclasses_v(ncs@),
            clearance_of_net(cv, name@) == clearance_of_net_upto(cv, name@, i as int - 1),
        decreases i,
    {
        i = i - 1;
        proof {
            assert(cv[i as int] == ncs@[i as int]@);
        }
        if names_contain(&ncs[i].net_names, name) {
            return Some(ncs[i].clearance);
        }
    }
    None
}

/// The pad name `REFERENCE-PINNUMBER`.
fn pad_key(reference: &String, pin: usize) -> (r: String)
    ensures
        r@ == pad_key_of(reference@, pin as int),
{
    let mut sname = reference.clone();
    proof {
        reveal_strlit("-");
        assert("-"@ =~= seq!['-']);
    }
    sname.append("-");
    let digits = usize_to_string(pin);
    sname.append(digits.as_str());
    sname
}

/// Resolves every pin of one net through the pad map, attaching the
/// net's clearance.  Fails exactly when the map does not build or a pin
/// is not in it.
/// Resolves one net pin to its display pad.
fn pad_of_pin_exec(pad_map: &Vec<TransformedPad>, dsn: &DsnStruct, pin: &Pin2) -> (r: Result<
    Pad,
    String,
>)
    requires
        tpads_v(pad_map@) == pad_map_of(dsn@),
    ensures
        r is Ok <==> find_tpad(pad_map_of(dsn@), pin@.component_name, pin@.pin_number) is Some,
        r is Ok ==> (r->Ok_0)@ == pad_for_pin(dsn@, pin@),
{
    let transformed = match find_tpad_exec(pad_map, &pin.component_name, pin.pin_number) {
        Some(t) => t,
        None => {
            return Err(msg_with("Pad not found: ", &pin.component_name));
        },
    };
    let name = pad_key(&pin.component_name, pin.pin_number);
    let clearance = match net_for_pin(&dsn.network.nets, pin) {
        Some(net_name) => match clearance_for_net(&dsn.network.netclasses, net_name) {
            Some(c) => c,
            None => 0,
        },
        None => 0,
    };
    proof {
        assert(crate::dsn_struct::nets_v(dsn.network.nets@) == dsn@.network.nets);
        assert(crate::dsn_struct::netclasses_v(dsn.network.netclasses@)
            == dsn@.network.netclasses);
    }
    let pad = Pad {
        name: PadName(name),
        position: transformed.position,
        shape: transformed.shape,
        rotation: transformed.rotation,
        clearance,
    };
    proof {
        reveal(pad_for_pin);
        assert(pad@ == pad_for_pin(dsn@, pin@));
    }
    Ok(pad)
}

/// Resolves every pin of one net through the pad map, attaching the
/// net's clearance.  Fails exactly when the map does not build or a pin
/// is not in it.
pub fn pins_to_pads(pins: &Vec<Pin2>, dsn: &DsnStruct) -> (r: Result<Vec<Pad>, String>)
    requires
        dsn_bounded(dsn@),
    ensures
        r is Ok <==> pad_map_ok(dsn@) && pins_resolve(
            dsn@,
            crate::dsn_struct::pins2_v(pins@),
        ),
        r is Ok ==> pads_v((r->Ok_0)@) == Seq::new(
            pins@.len(),
            |j: int| pad_for_pin(dsn@, crate::dsn_struct::pins2_v(pins@)[j]),
        ),
{
    let pad_map = build_pad_map(dsn)?;
    let n = pins.len();
    let mut pads: Vec<Pad> = Vec::new();
    let mut i: usize = 0;
    while i < n
        invariant
            0 <= i <= n == pins@.len(),
            tpads_v(pad_map@) == pad_map_of(dsn@),
            pads@.len() == i,
            forall|j: int|
                0 <= j < i ==> find_tpad(
                    pad_map_of(dsn@),
                    (#[trigger] crate::dsn_struct::pins2_v(pins@)[j]).component_name,
                    crate::dsn_struct::pins2_v(pins@)[j].pin_number,
                ) is Some,
            forall|j: int|
                0 <= j < i ==> #[trigger] pads_v(pads@)[j] == pad_for_pin(
                    dsn@,
                    crate::dsn_struct::pins2_v(pins@)[j],
                ),
        decreases n - i,
    {
        let pin = &pins[i];
        proof {
            assert(crate::dsn_struct::pins2_v(pins@)[i as int] == pin@);
        }
        let pad = pad_of_pin_exec(&pad_map, dsn, pin)?;
        let ghost padv = pad@;
        let ghost old_pads = pads@;
        pads.push(pad);
        proof {
            assert forall|j: int| 0 <= j < i + 1 implies #[trigger] pads_v(pads@)[j]
                == pad_for_pin(dsn@, crate::dsn_struct::pins2_v(pins@)[j]) by {
                if j < i {
                    assert(pads_v(pads@)[j] == pads_v(old_pads)[j]);
                } else {
                    assert(pads_v(pads@)[j] == padv);
                }
            }
        }
        i = i + 1;
    }
    proof {
        assert(pads_v(pads@) =~= Seq::new(
            pins@.len(),
            |j: int| pad_for_pin(dsn@, crate::dsn_struct::pins2_v(pins@)[j]),
        ));
    }
    Ok(pads)
}

// --- netclass resolution ------------------------------------------------

/// A net's defaults pulled out of its netclass.
#[derive(Debug)]
pub struct NetClassProperties {
    pub name: NetClassName,
    pub width: i64,
    pub clearance: i64,
    pub via_name: String,
}

/// Index of the first netclass whose member list holds `name`.
pub open spec fn matching_class_idx(ncs: Seq<NetclassV>, name: Seq<char>, i: int) -> int
    decreases ncs.len() - i,
{
    if 0 <= i < ncs.len() {
        if names_hold(ncs[i].net_names, name) {
            i
        } else {
            matching_class_idx(ncs, name, i + 1)
        }
    } else {
        ncs.len() as int
    }
}

/// The first netclass whose member list names this net; a net listed by
/// several classes keeps the first, a documented policy.  Fails exactly
/// when no class lists the net.
pub fn find_netclass(network: &Network, net_name: &String) -> (r: Result<
    NetClassProperties,
    String,
>)
    ensures
        r is Ok <==> matching_class_idx(crate::dsn_struct::netclasses_v(network.netclasses@), net_name@, 0)
            < network.netclasses@.len(),
        r is Ok ==> {
            let ncs = crate::dsn_struct::netclasses_v(network.netclasses@);
            let nc = ncs[matching_class_idx(ncs, net_name@, 0)];
            &&& (r->Ok_0).name.0@ == nc.net_class_name
            &&& (r->Ok_0).width == nc.width
            &&& (r->Ok_0).clearance == nc.clearance
            &&& (r->Ok_0).via_name@ == nc.via_name
        },
{
    let ghost cv = crate::dsn_struct::netclasses_v(network.netclasses@);
    let n = network.netclasses.len();
    let mut i: usize = 0;
    while i < n
        invariant
            0 <= i <= n == network.netclasses@.len(),
            cv == crate::dsn_struct::netclasses_v(network.netclasses@),
            matching_class_idx(cv, net_name@, 0) == matching_class_idx(cv, net_name@, i as int),
        decreases n - i,
    {
        proof {
            assert(cv[i as int] == network.netclasses@[i as int]@);
        }
        let nc = &network.netclasses[i];
        if names_contain(&nc.net_names, net_name) {
            assert(matching_class_idx(cv, net_name@, 0) == i);
            return Ok(
                NetClassProperties {
                    name: NetClassName(nc.net_class_name.clone()),
                    width: nc.width,
                    clearance: nc.clearance,
                    via_name: nc.via_name.clone(),
                },
            );
        }
        i = i + 1;
    }
    assert(matching_class_idx(cv, net_name@, 0) == cv.len());
    Err(msg_with("Net doesn't belong to any netclass: ", net_name))
}

// --- per-net display records --------------------------------------------

/// Whether one net resolves in full: its pins are in the pad map, a
/// netclass lists it, and that class's via is a circular pad stack.
pub open spec fn net_resolves(d: DsnStructV, n: NetV) -> bool {
    &&& pins_resolve(d, n.pins)
    &&& matching_class_idx(d.network.netclasses, n.name, 0) < d.network.netclasses.len()
    &&& {
        let nc = d.network.netclasses[matching_class_idx(d.network.netclasses, n.name, 0)];
        let ps = find_pad_stack_v(d.library.pad_stacks, nc.via_name);
        &&& ps is Some
        &&& ps.unwrap().shape is Circle
    }
}

/// The display record of one net.
pub open spec fn display_net_of(d: DsnStructV, n: NetV) -> DisplayNetInfoV {
    let nc = d.network.netclasses[matching_class_idx(d.network.netclasses, n.name, 0)];
    let ps = find_pad_stack_v(d.library.pad_stacks, nc.via_name).unwrap();
    DisplayNetInfoV {
        net_name: n.name,
        pads: Seq::new(n.pins.len(), |j: int| pad_for_pin(d, n.pins[j])),
        net_class_name: nc.net_class_name,
        default_trace_width: nc.width,
        default_trace_clearance: nc.clearance,
        via_diameter: ps.shape->Circle_diameter,
    }
}

/// Index of the first record named `name`.
pub open spec fn netinfo_index(s: Seq<DisplayNetInfoV>, name: Seq<char>, i: int) -> int
    decreases s.len() - i,
{
    if 0 <= i < s.len() {
        if s[i].net_name == name {
            i
        } else {
            netinfo_index(s, name, i + 1)
        }
    } else {
        s.len() as int
    }
}

/// A later record of the same net replaces the earlier one.
pub open spec fn upsert_netinfo(s: Seq<DisplayNetInfoV>, r: DisplayNetInfoV) -> Seq<
    DisplayNetInfoV,
> {
    let i = netinfo_index(s, r.net_name, 0);
    if i < s.len() {
        s.update(i, r)
    } else {
        s.push(r)
    }
}

/// The display records of the nets from `i` on, added to `acc`.
pub open spec fn net_infos_from(d: DsnStructV, i: int, acc: Seq<DisplayNetInfoV>) -> Seq<
    DisplayNetInfoV,
>
    decreases d.network.nets.len() - i,
{
    if 0 <= i < d.network.nets.len() {
        net_infos_from(d, i + 1, upsert_netinfo(acc, display_net_of(d, d.network.nets[i])))
    } else {
        acc
    }
}

/// The display records of all nets, in insertion order, one per name.
pub open spec fn net_infos_of(d: DsnStructV) -> Seq<DisplayNetInfoV> {
    net_infos_from(d, 0, Seq::empty())
}

/// Whether every net of the design resolves.  The pad map is only
/// built, and so only checked, when there is at least one net.
pub open spec fn net_info_ok(d: DsnStructV) -> bool {
    &&& d.network.nets.len() > 0 ==> pad_map_ok(d)
    &&& forall|i: int|
        0 <= i < d.network.nets.len() ==> net_resolves(d, #[trigger] d.network.nets[i])
}

/// Replaces the record of the same net, or appends.
fn upsert_netinfo_exec(s: &mut Vec<DisplayNetInfo>, r: DisplayNetInfo)
    ensures
        net_infos_v(final(s)@) == upsert_netinfo(net_infos_v(old(s)@), r@),
{
    let ghost sv = net_infos_v(old(s)@);
    let n = s.len();
    let mut i: usize = 0;
    while i < n
        invariant
            0 <= i <= n == s.len(),
            *s == *old(s),
            sv == net_infos_v(s@),
            netinfo_index(sv, r@.net_name, 0) == netinfo_index(sv, r@.net_name, i as int),
        decreases n - i,
    {
        proof {
            assert(sv[i as int] == s@[i as int]@);
        }
        if s[i].net_name.0 == r.net_name.0 {
            assert(netinfo_index(sv, r@.net_name, 0) == i);
            s.set(i, r);
            proof {
                assert(net_infos_v(s@) =~= upsert_netinfo(sv, r@));
            }
            return ;
        }
        i = i + 1;
    }
    assert(netinfo_index(sv, r@.net_name, 0) == sv.len());
    s.push(r);
    proof {
        assert(net_infos_v(s@) =~= upsert_netinfo(sv, r@));
    }
}

/// Builds one display record per net: resolved pads and netclass
/// defaults, the via diameter taken from the class's circular via pad
/// stack.  Fails exactly when some net does not resolve.
pub fn parse_net_info(dsn: &DsnStruct) -> (r: Result<Vec<DisplayNetInfo>, String>)
    requires
        dsn_bounded(dsn@),
    ensures
        r is Ok <==> net_info_ok(dsn@),
        r is Ok ==> net_infos_v((r->Ok_0)@) == net_infos_of(dsn@),
{
    let nets = &dsn.network.nets;
    let n = nets.len();
    let mut infos: Vec<DisplayNetInfo> = Vec::new();
    proof {
        assert(net_infos_v(infos@) =~= Seq::<DisplayNetInfoV>::empty());
    }
    let mut i: usize = 0;
    while i < n
        invariant
            0 <= i <= n == nets@.len(),
            dsn_bounded(dsn@),
            crate::dsn_struct::nets_v(nets@) == dsn@.network.nets,
            i > 0 ==> pad_map_ok(dsn@),
            forall|j: int|
                0 <= j < i ==> net_resolves(dsn@, #[trigger] dsn@.network.nets[j]),
            net_infos_of(dsn@) == net_infos_from(dsn@, i as int, net_infos_v(infos@)),
        decreases n - i,
    {
        let net = &nets[i];
        proof {
            assert(dsn@.network.nets[i as int] == net@);
        }
        let pads = match pins_to_pads(&net.pins, dsn) {
            Ok(p) => p,
            Err(e) => {
                return Err(e);
            },
        };
        let ncp = match find_netclass(&dsn.network, &net.name) {
            Ok(p) => p,
            Err(e) => {
                proof {
                    assert(crate::dsn_struct::netclasses_v(dsn.network.netclasses@)
                        == dsn@.network.netclasses);
                }
                return Err(e);
            },
        };
        proof {
            assert(crate::dsn_struct::netclasses_v(dsn.network.netclasses@)
                == dsn@.network.netclasses);
        }
        let via_stack = match dsn.library.find_pad_stack(&ncp.via_name) {
            Some(p) => p,
            None => {
                let mut m = msg("Invalid via '");
                m.append(ncp.via_name.as_str());
                m.append("' for net '");
                m.append(net.name.as_str());
                m.append("': not found or not circular");
                return Err(m);
            },
        };
        let via_diameter = match &via_stack.shape {
            Shape::Circle { diameter } => *diameter,
            _ => {
                let mut m = msg("Invalid via '");
                m.append(ncp.via_name.as_str());
                m.append("' for net '");
                m.append(net.name.as_str());
                m.append("': not found or not circular");
                return Err(m);
            },
        };
        let info = DisplayNetInfo {
            net_name: NetName(net.name.clone()),
            pads,
            net_class_name: ncp.name,
            default_trace_width: ncp.width,
            default_trace_clearance: ncp.clearance,
            via_diameter,
        };
        proof {
            assert(info@.pads =~= display_net_of(dsn@, net@).pads);
            assert(info@ == display_net_of(dsn@, net@));
        }
        upsert_netinfo_exec(&mut infos, info);
        i = i + 1;
    }
    Ok(infos)
}

// --- the display aggregate ----------------------------------------------

/// Whether the whole design lowers to a display form: coordinates in
/// range, a non-empty boundary, and every net resolved.
pub open spec fn display_ok(d: DsnStructV) -> bool {
    &&& dsn_bounded(d)
    &&& d.structure.boundary.len() > 0
    &&& net_info_ok(d)
}

/// Lowers the whole design model: board extent from the boundary's
/// bounding box, one display record per net, and an empty override
/// layer for the caller to fill.
pub fn dsn_to_display(dsn: DsnStruct) -> (r: Result<(DisplayFormat, ExtraInfo), String>)
    ensures
        r is Ok <==> display_ok(dsn@),
        r is Ok ==> {
            let f = &(r->Ok_0).0;
            let pts = dsn@.structure.boundary;
            let n = pts.len() as int;
            &&& f.width as int == max_x_of(pts, n) - min_x_of(pts, n)
            &&& f.height as int == max_y_of(pts, n) - min_y_of(pts, n)
            &&& f.center.0 as int == half_toward_zero(min_x_of(pts, n) + max_x_of(pts, n))
            &&& f.center.1 as int == half_toward_zero(min_y_of(pts, n) + max_y_of(pts, n))
            &&& f.obstacle_lines@.len() == 0
            &&& f.obstacle_polygons@.len() == 0
            &&& net_infos_v(f.nets@) == net_infos_of(dsn@)
            &&& (r->Ok_0).1.pad_name_to_trace_width@.len() == 0
            &&& (r->Ok_0).1.pad_name_to_trace_clearance@.len() == 0
            &&& (r->Ok_0).1.net_name_to_source_pad@.len() == 0
        },
{
    if !dsn.in_range() {
        return Err(msg("Coordinate out of range in the design model"));
    }
    proof {
        assert(dsn.structure.boundary.0@ == dsn@.structure.boundary);
    }
    let (width, height, center) = calculate_boundary(&dsn.structure.boundary)?;
    let net_info = parse_net_info(&dsn)?;
    let display_format = DisplayFormat {
        width,
        height,
        center,
        obstacle_lines: Vec::new(),
        obstacle_polygons: Vec::new(),
        nets: net_info,
    };
    Ok((display_format, ExtraInfo::empty()))
}

} // verus!
