//! The typed design model built from the expression tree.
//!
//! Every numeric field is an exact count of millionths of a design unit
//! (rotations: millionths of a degree).  Collections keyed by a name or
//! a pin number are ordered vectors in which a later definition replaces
//! an earlier one with the same key, so keys stay unique.

use vstd::prelude::*;

verus! {

#[derive(Debug)]
pub struct Resolution {
    pub unit: String,
    pub value: i64,
}

#[derive(Debug)]
pub struct Layer {
    pub name: String,
}

#[derive(Debug)]
pub struct Boundary(pub Vec<(i64, i64)>);

#[derive(Debug)]
pub struct Structure {
    pub layers: Vec<Layer>,
    pub boundary: Boundary,
}

#[derive(Debug)]
pub struct ComponentInst {
    pub reference: String,
    pub position: (i64, i64),
    pub rotation: i64,
}

#[derive(Debug)]
pub struct Component {
    pub name: String,
    pub instances: Vec<ComponentInst>,
}

#[derive(Debug)]
pub struct Placement {
    pub components: Vec<Component>,
}

#[derive(Debug)]
pub struct Pin {
    pub pad_stack_name: String,
    pub pin_number: usize,
    pub position: (i64, i64),
}

#[derive(Debug)]
pub struct Image {
    pub name: String,
    pub pins: Vec<Pin>,
}

#[derive(Debug)]
pub enum Shape {
    Circle { diameter: i64 },
    Rect { x_min: i64, y_min: i64, x_max: i64, y_max: i64 },
    Polygon { aperture_width: i64, vertices: Vec<(i64, i64)> },
}

#[derive(Debug)]
pub struct PadStack {
    pub name: String,
    pub shape: Shape,
    pub through_hole: bool,
}

#[derive(Debug)]
pub struct Library {
    pub images: Vec<Image>,
    pub pad_stacks: Vec<PadStack>,
}

#[derive(Debug)]
pub struct Netclass {
    pub net_class_name: String,
    pub net_names: Vec<String>,
    pub via_name: String,
    pub width: i64,
    pub clearance: i64,
}

#[derive(Debug)]
pub struct Pin2 {
    pub component_name: String,
    pub pin_number: usize,
}

#[derive(Debug)]
pub struct Net {
    pub name: String,
    pub pins: Vec<Pin2>,
}

#[derive(Debug)]
pub struct Network {
    pub nets: Vec<Net>,
    pub netclasses: Vec<Netclass>,
}

#[derive(Debug)]
pub struct DsnStruct {
    pub resolution: Resolution,
    pub structure: Structure,
    pub placement: Placement,
    pub library: Library,
    pub network: Network,
}

// --- Mathematical views -------------------------------------------------

pub struct ResolutionV {
    pub unit: Seq<char>,
    pub value: i64,
}

pub struct LayerV {
    pub name: Seq<char>,
}

pub struct StructureV {
    pub layers: Seq<LayerV>,
    pub boundary: Seq<(i64, i64)>,
}

pub struct ComponentInstV {
    pub reference: Seq<char>,
    pub position: (i64, i64),
    pub rotation: i64,
}

pub struct ComponentV {
    pub name: Seq<char>,
    pub instances: Seq<ComponentInstV>,
}

pub struct PlacementV {
    pub components: Seq<ComponentV>,
}

pub struct PinV {
    pub pad_stack_name: Seq<char>,
    pub pin_number: usize,
    pub position: (i64, i64),
}

pub struct ImageV {
    pub name: Seq<char>,
    pub pins: Seq<PinV>,
}

pub enum ShapeV {
    Circle { diameter: i64 },
    Rect { x_min: i64, y_min: i64, x_max: i64, y_max: i64 },
    Polygon { aperture_width: i64, vertices: Seq<(i64, i64)> },
}

pub struct PadStackV {
    pub name: Seq<char>,
    pub shape: ShapeV,
    pub through_hole: bool,
}

pub struct LibraryV {
    pub images: Seq<ImageV>,
    pub pad_stacks: Seq<PadStackV>,
}

pub struct NetclassV {
    pub net_class_name: Seq<char>,
    pub net_names: Seq<Seq<char>>,
    pub via_name: Seq<char>,
    pub width: i64,
    pub clearance: i64,
}

pub struct Pin2V {
    pub component_name: Seq<char>,
    pub pin_number: usize,
}

pub struct NetV {
    pub name: Seq<char>,
    pub pins: Seq<Pin2V>,
}

pub struct NetworkV {
    pub nets: Seq<NetV>,
    pub netclasses: Seq<NetclassV>,
}

pub struct DsnStructV {
    pub resolution: ResolutionV,
    pub structure: StructureV,
    pub placement: PlacementV,
    pub library: LibraryV,
    pub network: NetworkV,
}

impl View for Resolution {
    type V = ResolutionV;

    open spec fn view(&self) -> ResolutionV {
        ResolutionV { unit: self.unit@, value: self.value }
    }
}

impl View for Layer {
    type V = LayerV;

    open spec fn view(&self) -> LayerV {
        LayerV { name: self.name@ }
    }
}

pub open spec fn layers_v(s: Seq<Layer>) -> Seq<LayerV> {
    Seq::new(s.len(), |i: int| s[i]@)
}

impl View for Structure {
    type V = StructureV;

    open spec fn view(&self) -> StructureV {
        StructureV { layers: layers_v(self.layers@), boundary: self.boundary.0@ }
    }
}

impl View for ComponentInst {
    type V = ComponentInstV;

    open spec fn view(&self) -> ComponentInstV {
        ComponentInstV {
            reference: self.reference@,
            position: self.position,
            rotation: self.rotation,
        }
    }
}

pub open spec fn instances_v(s: Seq<ComponentInst>) -> Seq<ComponentInstV> {
    Seq::new(s.len(), |i: int| s[i]@)
}

impl View for Component {
    type V = ComponentV;

    open spec fn view(&self) -> ComponentV {
        ComponentV { name: self.name@, instances: instances_v(self.instances@) }
    }
}

pub open spec fn components_v(s: Seq<Component>) -> Seq<ComponentV> {
    Seq::new(s.len(), |i: int| s[i]@)
}

impl View for Placement {
    type V = PlacementV;

    open spec fn view(&self) -> PlacementV {
        PlacementV { components: components_v(self.components@) }
    }
}

impl View for Pin {
    type V = PinV;

    open spec fn view(&self) -> PinV {
        PinV {
            pad_stack_name: self.pad_stack_name@,
            pin_number: self.pin_number,
            position: self.position,
        }
    }
}

pub open spec fn pins_v(s: Seq<Pin>) -> Seq<PinV> {
    Seq::new(s.len(), |i: int| s[i]@)
}

impl View for Image {
    type V = ImageV;

    open spec fn view(&self) -> ImageV {
        ImageV { name: self.name@, pins: pins_v(self.pins@) }
    }
}

impl View for Shape {
    type V = ShapeV;

    open spec fn view(&self) -> ShapeV {
        match self {
            Shape::Circle { diameter } => ShapeV::Circle { diameter: *diameter },
            Shape::Rect { x_min, y_min, x_max, y_max } => ShapeV::Rect {
                x_min: *x_min,
                y_min: *y_min,
                x_max: *x_max,
                y_max: *y_max,
            },
            Shape::Polygon { aperture_width, vertices } => ShapeV::Polygon {
                aperture_width: *aperture_width,
                vertices: vertices@,
            },
        }
    }
}

impl View for PadStack {
    type V = PadStackV;

    open spec fn view(&self) -> PadStackV {
        PadStackV { name: self.name@, shape: self.shape@, through_hole: self.through_hole }
    }
}

pub open spec fn pad_stacks_v(s: Seq<PadStack>) -> Seq<PadStackV> {
    Seq::new(s.len(), |i: int| s[i]@)
}

pub open spec fn images_v(s: Seq<Image>) -> Seq<ImageV> {
    Seq::new(s.len(), |i: int| s[i]@)
}

impl View for Library {
    type V = LibraryV;

    open spec fn view(&self) -> LibraryV {
        LibraryV { images: images_v(self.images@), pad_stacks: pad_stacks_v(self.pad_stacks@) }
    }
}

pub open spec fn strings_v(s: Seq<String>) -> Seq<Seq<char>> {
    Seq::new(s.len(), |i: int| s[i]@)
}

impl View for Netclass {
    type V = NetclassV;

    open spec fn view(&self) -> NetclassV {
        NetclassV {
            net_class_name: self.net_class_name@,
            net_names: strings_v(self.net_names@),
            via_name: self.via_name@,
            width: self.width,
            clearance: self.clearance,
        }
    }
}

pub open spec fn netclasses_v(s: Seq<Netclass>) -> Seq<NetclassV> {
    Seq::new(s.len(), |i: int| s[i]@)
}

impl View for Pin2 {
    type V = Pin2V;

    open spec fn view(&self) -> Pin2V {
        Pin2V { component_name: self.component_name@, pin_number: self.pin_number }
    }
}

pub open spec fn pins2_v(s: Seq<Pin2>) -> Seq<Pin2V> {
    Seq::new(s.len(), |i: int| s[i]@)
}

impl View for Net {
    type V = NetV;

    open spec fn view(&self) -> NetV {
        NetV { name: self.name@, pins: pins2_v(self.pins@) }
    }
}

pub open spec fn nets_v(s: Seq<Net>) -> Seq<NetV> {
    Seq::new(s.len(), |i: int| s[i]@)
}

impl View for Network {
    type V = NetworkV;

    open spec fn view(&self) -> NetworkV {
        NetworkV { nets: nets_v(self.nets@), netclasses: netclasses_v(self.netclasses@) }
    }
}

impl View for DsnStruct {
    type V = DsnStructV;

    open spec fn view(&self) -> DsnStructV {
        DsnStructV {
            resolution: self.resolution@,
            structure: self.structure@,
            placement: self.placement@,
            library: self.library@,
            network: self.network@,
        }
    }
}

// --- Keyed access -------------------------------------------------------

/// Index of the first pin numbered `n` at or after `i`, or the length.
pub open spec fn pin_index(pins: Seq<PinV>, n: usize, i: int) -> int
    decreases pins.len() - i,
{
    if 0 <= i < pins.len() {
        if pins[i].pin_number == n {
            i
        } else {
            pin_index(pins, n, i + 1)
        }
    } else {
        pins.len() as int
    }
}

/// A later pin definition replaces an earlier one with the same number.
pub open spec fn upsert_pin_v(pins: Seq<PinV>, p: PinV) -> Seq<PinV> {
    let i = pin_index(pins, p.pin_number, 0);
    if i < pins.len() {
        pins.update(i, p)
    } else {
        pins.push(p)
    }
}

/// Index of the first image named `name` at or after `i`, or the length.
pub open spec fn image_index(images: Seq<ImageV>, name: Seq<char>, i: int) -> int
    decreases images.len() - i,
{
    if 0 <= i < images.len() {
        if images[i].name == name {
            i
        } else {
            image_index(images, name, i + 1)
        }
    } else {
        images.len() as int
    }
}

pub open spec fn upsert_image_v(images: Seq<ImageV>, img: ImageV) -> Seq<ImageV> {
    let i = image_index(images, img.name, 0);
    if i < images.len() {
        images.update(i, img)
    } else {
        images.push(img)
    }
}

pub open spec fn find_image_v(images: Seq<ImageV>, name: Seq<char>) -> Option<ImageV> {
    let i = image_index(images, name, 0);
    if i < images.len() {
        Some(images[i])
    } else {
        None
    }
}

/// Index of the first pad stack named `name` at or after `i`.
pub open spec fn pad_stack_index(ps: Seq<PadStackV>, name: Seq<char>, i: int) -> int
    decreases ps.len() - i,
{
    if 0 <= i < ps.len() {
        if ps[i].name == name {
            i
        } else {
            pad_stack_index(ps, name, i + 1)
        }
    } else {
        ps.len() as int
    }
}

pub open spec fn upsert_pad_stack_v(ps: Seq<PadStackV>, p: PadStackV) -> Seq<PadStackV> {
    let i = pad_stack_index(ps, p.name, 0);
    if i < ps.len() {
        ps.update(i, p)
    } else {
        ps.push(p)
    }
}

pub open spec fn find_pad_stack_v(ps: Seq<PadStackV>, name: Seq<char>) -> Option<PadStackV> {
    let i = pad_stack_index(ps, name, 0);
    if i < ps.len() {
        Some(ps[i])
    } else {
        None
    }
}

/// Index of the first netclass named `name` at or after `i`.
pub open spec fn netclass_index(ncs: Seq<NetclassV>, name: Seq<char>, i: int) -> int
    decreases ncs.len() - i,
{
    if 0 <= i < ncs.len() {
        if ncs[i].net_class_name == name {
            i
        } else {
            netclass_index(ncs, name, i + 1)
        }
    } else {
        ncs.len() as int
    }
}

pub open spec fn upsert_netclass_v(ncs: Seq<NetclassV>, nc: NetclassV) -> Seq<NetclassV> {
    let i = netclass_index(ncs, nc.net_class_name, 0);
    if i < ncs.len() {
        ncs.update(i, nc)
    } else {
        ncs.push(nc)
    }
}

impl Image {
    /// Adds a pin, replacing any earlier pin with the same number.
    pub fn upsert_pin(&mut self, p: Pin)
        ensures
            final(self)@.name == old(self)@.name,
            final(self)@.pins == upsert_pin_v(old(self)@.pins, p@),
    {
        let ghost pv = pins_v(old(self).pins@);
        let n = self.pins.len();
        let mut i: usize = 0;
        while i < n
            invariant
                0 <= i <= n == self.pins.len(),
                *self == *old(self),
                pv == pins_v(self.pins@),
                pin_index(pv, p.pin_number, 0) == pin_index(pv, p.pin_number, i as int),
                forall|j: int| 0 <= j < i ==> pv[j].pin_number != p.pin_number,
            decreases n - i,
        {
            if self.pins[i].pin_number == p.pin_number {
                assert(pin_index(pv, p.pin_number, 0) == i);
                self.pins.set(i, p);
                proof {
                    assert(pins_v(self.pins@) =~= upsert_pin_v(pv, p@));
                }
                return ;
            }
            i = i + 1;
        }
        assert(pin_index(pv, p.pin_number, 0) == pv.len());
        self.pins.push(p);
        proof {
            assert(pins_v(self.pins@) =~= upsert_pin_v(pv, p@));
        }
    }
}

impl Library {
    /// Adds an image, replacing any earlier image with the same name.
    pub fn upsert_image(&mut self, img: Image)
        ensures
            final(self)@.images == upsert_image_v(old(self)@.images, img@),
            final(self)@.pad_stacks == old(self)@.pad_stacks,
    {
        let ghost iv = images_v(old(self).images@);
        let n = self.images.len();
        let mut i: usize = 0;
        while i < n
            invariant
                0 <= i <= n == self.images.len(),
                *self == *old(self),
                iv == images_v(self.images@),
                image_index(iv, img@.name, 0) == image_index(iv, img@.name, i as int),
                forall|j: int| 0 <= j < i ==> iv[j].name != img@.name,
            decreases n - i,
        {
            if self.images[i].name == img.name {
                assert(image_index(iv, img@.name, 0) == i);
                self.images.set(i, img);
                proof {
                    assert(images_v(self.images@) =~= upsert_image_v(iv, img@));
                }
                return ;
            }
            i = i + 1;
        }
        assert(image_index(iv, img@.name, 0) == iv.len());
        self.images.push(img);
        proof {
            assert(images_v(self.images@) =~= upsert_image_v(iv, img@));
        }
    }

    /// Adds a pad stack, replacing any earlier one with the same name.
    pub fn upsert_pad_stack(&mut self, p: PadStack)
        ensures
            final(self)@.pad_stacks == upsert_pad_stack_v(old(self)@.pad_stacks, p@),
            final(self)@.images == old(self)@.images,
    {
        let ghost sv = pad_stacks_v(old(self).pad_stacks@);
        let n = self.pad_stacks.len();
        let mut i: usize = 0;
        while i < n
            invariant
                0 <= i <= n == self.pad_stacks.len(),
                *self == *old(self),
                sv == pad_stacks_v(self.pad_stacks@),
                pad_stack_index(sv, p@.name, 0) == pad_stack_index(sv, p@.name, i as int),
                forall|j: int| 0 <= j < i ==> sv[j].name != p@.name,
            decreases n - i,
        {
            if self.pad_stacks[i].name == p.name {
                assert(pad_stack_index(sv, p@.name, 0) == i);
                self.pad_stacks.set(i, p);
                proof {
                    assert(pad_stacks_v(self.pad_stacks@) =~= upsert_pad_stack_v(sv, p@));
                }
                return ;
            }
            i = i + 1;
        }
        assert(pad_stack_index(sv, p@.name, 0) == sv.len());
        self.pad_stacks.push(p);
        proof {
            assert(pad_stacks_v(self.pad_stacks@) =~= upsert_pad_stack_v(sv, p@));
        }
    }

    /// Looks an image up by name.
    pub fn find_image(&self, name: &String) -> (r: Option<&Image>)
        ensures
            match r {
                Some(img) => find_image_v(self@.images, name@) == Some(img@),
                None => find_image_v(self@.images, name@) is None,
            },
    {
        let ghost iv = self@.images;
        let n = self.images.len();
        let mut i: usize = 0;
        while i < n
            invariant
                0 <= i <= n == self.images.len(),
                iv == images_v(self.images@),
                image_index(iv, name@, 0) == image_index(iv, name@, i as int),
            decreases n - i,
        {
            if self.images[i].name == *name {
                assert(image_index(iv, name@, 0) == i);
                return Some(&self.images[i]);
            }
            i = i + 1;
        }
        assert(image_index(iv, name@, 0) == iv.len());
        None
    }

    /// Looks a pad stack up by name.
    pub fn find_pad_stack(&self, name: &String) -> (r: Option<&PadStack>)
        ensures
            match r {
                Some(p) => find_pad_stack_v(self@.pad_stacks, name@) == Some(p@),
                None => find_pad_stack_v(self@.pad_stacks, name@) is None,
            },
    {
        let ghost sv = self@.pad_stacks;
        let n = self.pad_stacks.len();
        let mut i: usize = 0;
        while i < n
            invariant
                0 <= i <= n == self.pad_stacks.len(),
                sv == pad_stacks_v(self.pad_stacks@),
                pad_stack_index(sv, name@, 0) == pad_stack_index(sv, name@, i as int),
            decreases n - i,
        {
            if self.pad_stacks[i].name == *name {
                assert(pad_stack_index(sv, name@, 0) == i);
                return Some(&self.pad_stacks[i]);
            }
            i = i + 1;
        }
        assert(pad_stack_index(sv, name@, 0) == sv.len());
        None
    }
}

impl Network {
    /// Adds a netclass, replacing any earlier one with the same name.
    pub fn upsert_netclass(&mut self, nc: Netclass)
        ensures
            final(self)@.netclasses == upsert_netclass_v(old(self)@.netclasses, nc@),
            final(self)@.nets == old(self)@.nets,
    {
        let ghost cv = netclasses_v(old(self).netclasses@);
        let n = self.netclasses.len();
        let mut i: usize = 0;
        while i < n
            invariant
                0 <= i <= n == self.netclasses.len(),
                *self == *old(self),
                cv == netclasses_v(self.netclasses@),
                netclass_index(cv, nc@.net_class_name, 0) == netclass_index(
                    cv,
                    nc@.net_class_name,
                    i as int,
                ),
                forall|j: int| 0 <= j < i ==> cv[j].net_class_name != nc@.net_class_name,
            decreases n - i,
        {
            if self.netclasses[i].net_class_name == nc.net_class_name {
                assert(netclass_index(cv, nc@.net_class_name, 0) == i);
                self.netclasses.set(i, nc);
                proof {
                    assert(netclasses_v(self.netclasses@) =~= upsert_netclass_v(cv, nc@));
                }
                return ;
            }
            i = i + 1;
        }
        assert(netclass_index(cv, nc@.net_class_name, 0) == cv.len());
        self.netclasses.push(nc);
        proof {
            assert(netclasses_v(self.netclasses@) =~= upsert_netclass_v(cv, nc@));
        }
    }
}

/// The searched index stays within the sequence.
pub proof fn lemma_pin_index_bounds(pins: Seq<PinV>, n: usize, i: int)
    requires
        0 <= i <= pins.len(),
    ensures
        i <= pin_index(pins, n, i) <= pins.len(),
    decreases pins.len() - i,
{
    if i < pins.len() && pins[i].pin_number != n {
        lemma_pin_index_bounds(pins, n, i + 1);
    }
}

/// The searched index stays within the sequence.
pub proof fn lemma_image_index_bounds(images: Seq<ImageV>, name: Seq<char>, i: int)
    requires
        0 <= i <= images.len(),
    ensures
        i <= image_index(images, name, i) <= images.len(),
        image_index(images, name, i) < images.len() ==> images[image_index(
            images,
            name,
            i,
        )].name == name,
    decreases images.len() - i,
{
    if i < images.len() && images[i].name != name {
        lemma_image_index_bounds(images, name, i + 1);
    }
}

/// The searched index stays within the sequence.
pub proof fn lemma_pad_stack_index_bounds(ps: Seq<PadStackV>, name: Seq<char>, i: int)
    requires
        0 <= i <= ps.len(),
    ensures
        i <= pad_stack_index(ps, name, i) <= ps.len(),
        pad_stack_index(ps, name, i) < ps.len() ==> ps[pad_stack_index(ps, name, i)].name
            == name,
    decreases ps.len() - i,
{
    if i < ps.len() && ps[i].name != name {
        lemma_pad_stack_index_bounds(ps, name, i + 1);
    }
}

// --- Coordinate ranges --------------------------------------------------

/// Whether both coordinates lie within the parseable range.
pub open spec fn point_in_range(p: (i64, i64)) -> bool {
    &&& -crate::numeric::MAX_ABS_MICROS <= p.0 <= crate::numeric::MAX_ABS_MICROS
    &&& -crate::numeric::MAX_ABS_MICROS <= p.1 <= crate::numeric::MAX_ABS_MICROS
}

/// Whether a number lies within the parseable range.
pub open spec fn micros_in_range(v: i64) -> bool {
    -crate::numeric::MAX_ABS_MICROS <= v <= crate::numeric::MAX_ABS_MICROS
}

/// Whether every coordinate the geometric stages compute with lies
/// within the range the numeric parser guarantees: boundary points,
/// instance positions and rotations, pin positions, and rectangle
/// shapes.  The builder only produces models within this range; the
/// resolvers check it once at their entry.
pub open spec fn dsn_bounded(d: DsnStructV) -> bool {
    &&& forall|i: int|
        0 <= i < d.structure.boundary.len() ==> point_in_range(#[trigger] d.structure.boundary[i])
    &&& forall|c: int, j: int|
        0 <= c < d.placement.components.len() && 0 <= j
            < d.placement.components[c].instances.len() ==> point_in_range(
            (#[trigger] d.placement.components[c].instances[j]).position,
        ) && micros_in_range(d.placement.components[c].instances[j].rotation)
    &&& forall|i: int, j: int|
        0 <= i < d.library.images.len() && 0 <= j < d.library.images[i].pins.len()
            ==> point_in_range((#[trigger] d.library.images[i].pins[j]).position)
    &&& forall|i: int|
        0 <= i < d.library.pad_stacks.len() ==> match (#[trigger] d.library.pad_stacks[i]).shape {
            ShapeV::Rect { x_min, y_min, x_max, y_max } => micros_in_range(x_min)
                && micros_in_range(y_min) && micros_in_range(x_max) && micros_in_range(y_max),
            _ => true,
        }
}

/// Decides whether a point is in range.
fn point_in_range_exec(p: (i64, i64)) -> (b: bool)
    ensures
        b == point_in_range(p),
{
    -crate::numeric::MAX_ABS_MICROS <= p.0 && p.0 <= crate::numeric::MAX_ABS_MICROS
        && -crate::numeric::MAX_ABS_MICROS <= p.1 && p.1 <= crate::numeric::MAX_ABS_MICROS
}

/// Decides whether a number is in range.
fn micros_in_range_exec(v: i64) -> (b: bool)
    ensures
        b == micros_in_range(v),
{
    -crate::numeric::MAX_ABS_MICROS <= v && v <= crate::numeric::MAX_ABS_MICROS
}

impl DsnStruct {
    /// Decides whether every coordinate of the model is within range.
    pub fn in_range(&self) -> (b: bool)
        ensures
            b == dsn_bounded(self@),
    {
        let bpts = &self.structure.boundary.0;
        let n0 = bpts.len();
        let mut i: usize = 0;
        while i < n0
            invariant
                0 <= i <= n0 == bpts@.len(),
                bpts@ == self@.structure.boundary,
                forall|k: int| 0 <= k < i ==> point_in_range(#[trigger] bpts@[k]),
            decreases n0 - i,
        {
            if !point_in_range_exec(bpts[i]) {
                proof {
                    assert(!point_in_range(self@.structure.boundary[i as int]));
                }
                return false;
            }
            i = i + 1;
        }
        let comps = &self.placement.components;
        let n1 = comps.len();
        let mut c: usize = 0;
        while c < n1
            invariant
                0 <= c <= n1 == comps@.len(),
                components_v(comps@) == self@.placement.components,
                forall|a: int, j: int|
                    0 <= a < c && 0 <= j < components_v(comps@)[a].instances.len()
                        ==> point_in_range(
                        (#[trigger] components_v(comps@)[a].instances[j]).position,
                    ) && micros_in_range(components_v(comps@)[a].instances[j].rotation),
            decreases n1 - c,
        {
            let insts = &comps[c].instances;
            let n2 = insts.len();
            let mut j: usize = 0;
            while j < n2
                invariant
                    0 <= j <= n2 == insts@.len(),
                    0 <= c < comps@.len(),
                    insts@ == comps@[c as int].instances@,
                    components_v(comps@) == self@.placement.components,
                    forall|k: int|
                        0 <= k < j ==> point_in_range(
                            (#[trigger] instances_v(insts@)[k]).position,
                        ) && micros_in_range(instances_v(insts@)[k].rotation),
                decreases n2 - j,
            {
                if !point_in_range_exec(insts[j].position) {
                    proof {
                        assert(self@.placement.components[c as int].instances[j as int]
                            == instances_v(insts@)[j as int]);
                    }
                    return false;
                }
                if !micros_in_range_exec(insts[j].rotation) {
                    proof {
                        assert(self@.placement.components[c as int].instances[j as int]
                            == instances_v(insts@)[j as int]);
                    }
                    return false;
                }
                j = j + 1;
            }
            proof {
                assert(components_v(comps@)[c as int].instances =~= instances_v(insts@));
            }
            c = c + 1;
        }
        let imgs = &self.library.images;
        let n3 = imgs.len();
        let mut a: usize = 0;
        while a < n3
            invariant
                0 <= a <= n3 == imgs@.len(),
                images_v(imgs@) == self@.library.images,
                forall|x: int, j: int|
                    0 <= x < a && 0 <= j < images_v(imgs@)[x].pins.len() ==> point_in_range(
                        (#[trigger] images_v(imgs@)[x].pins[j]).position,
                    ),
            decreases n3 - a,
        {
            let pins = &imgs[a].pins;
            let n4 = pins.len();
            let mut j: usize = 0;
            while j < n4
                invariant
                    0 <= j <= n4 == pins@.len(),
                    0 <= a < imgs@.len(),
                    pins@ == imgs@[a as int].pins@,
                    images_v(imgs@) == self@.library.images,
                    forall|k: int|
                        0 <= k < j ==> point_in_range((#[trigger] pins_v(pins@)[k]).position),
                decreases n4 - j,
            {
                if !point_in_range_exec(pins[j].position) {
                    proof {
                        assert(self@.library.images[a as int].pins[j as int] == pins_v(pins@)[
                            j as int]);
                    }
                    return false;
                }
                j = j + 1;
            }
            proof {
                assert(images_v(imgs@)[a as int].pins =~= pins_v(pins@));
            }
            a = a + 1;
        }
        let stacks = &self.library.pad_stacks;
        let n5 = stacks.len();
        let mut t: usize = 0;
        while t < n5
            invariant
                0 <= t <= n5 == stacks@.len(),
                pad_stacks_v(stacks@) == self@.library.pad_stacks,
                forall|k: int|
                    0 <= k < t ==> match (#[trigger] pad_stacks_v(stacks@)[k]).shape {
                        ShapeV::Rect { x_min, y_min, x_max, y_max } => micros_in_range(x_min)
                            && micros_in_range(y_min) && micros_in_range(x_max)
                            && micros_in_range(y_max),
                        _ => true,
                    },
            decreases n5 - t,
        {
            match &stacks[t].shape {
                Shape::Rect { x_min, y_min, x_max, y_max } => {
                    if !(micros_in_range_exec(*x_min) && micros_in_range_exec(*y_min)
                        && micros_in_range_exec(*x_max) && micros_in_range_exec(*y_max)) {
                        proof {
                            assert(self@.library.pad_stacks[t as int] == pad_stacks_v(stacks@)[
                                t as int]);
                        }
                        return false;
                    }
                },
                _ => {},
            }
            t = t + 1;
        }
        true
    }
}

} // verus!
