//! Schema-directed walk from the expression tree to the design model.
//!
//! Each scope is a list whose first atom names it; a parse function per
//! scope checks the shape and extracts the typed value.  Every parse
//! function's contract states exactly when it succeeds and what it
//! yields, over spec functions on the tree models.  Any violation aborts
//! the whole build with a descriptive error.

use vstd::prelude::*;

use crate::dsn_struct::{
    Boundary, Component, ComponentInst, ComponentInstV, ComponentV, DsnStruct, DsnStructV, Image,
    ImageV, Layer, LayerV, Library, LibraryV, Net, Netclass, NetclassV, NetV, Network, NetworkV,
    PadStack, PadStackV, Pin, Pin2, Pin2V, PinV, Placement, PlacementV, Resolution, ResolutionV,
    Shape, ShapeV, Structure, StructureV,
};
use crate::numeric::{dec_value_micros, digits_val, is_decimal, is_usize_digits, parse_decimal, parse_usize};
use crate::s_expr::{models_of, SExpr, SExprModel};

verus! {

broadcast use crate::s_expr::lemma_models_of_len, crate::s_expr::lemma_models_of_index, vstd::string::group_string_axioms;

/// Whether `e` is the atom spelled `w`.
pub open spec fn is_word(e: SExprModel, w: Seq<char>) -> bool {
    e == SExprModel::Atom(w)
}

/// Compares an atom's text with a keyword.
fn word_eq(a: &String, w: &str) -> (r: bool)
    ensures
        r == (a@ == w@),
{
    *a == String::from_str(w)
}

/// A static error message.
pub fn msg(text: &str) -> (r: String)
    ensures
        r@ == text@,
{
    String::from_str(text)
}

/// An error message followed by the offending text.
pub fn msg_with(text: &str, found: &String) -> (r: String)
    ensures
        r@ == text@ + found@,
{
    let mut m = String::from_str(text);
    m.append(found.as_str());
    m
}

/// The dialect's keywords are pairwise distinct within each scope.
pub proof fn lemma_keywords_distinct()
    ensures
        "boundary"@ != "rule"@,
        "boundary"@ != "via"@,
        "circle"@ != "polygon"@,
        "circle"@ != "rect"@,
        "circuit"@ != "rule"@,
        "image"@ != "padstack"@,
        "layer"@ != "boundary"@,
        "layer"@ != "rule"@,
        "layer"@ != "via"@,
        "library"@ != "network"@,
        "library"@ != "wiring"@,
        "net"@ != "class"@,
        "network"@ != "wiring"@,
        "outline"@ != "pin"@,
        "parser"@ != "library"@,
        "parser"@ != "network"@,
        "parser"@ != "placement"@,
        "parser"@ != "resolution"@,
        "parser"@ != "structure"@,
        "parser"@ != "unit"@,
        "parser"@ != "wiring"@,
        "placement"@ != "library"@,
        "placement"@ != "network"@,
        "placement"@ != "wiring"@,
        "rect"@ != "polygon"@,
        "resolution"@ != "library"@,
        "resolution"@ != "network"@,
        "resolution"@ != "placement"@,
        "resolution"@ != "structure"@,
        "resolution"@ != "unit"@,
        "resolution"@ != "wiring"@,
        "shape"@ != "attach"@,
        "structure"@ != "library"@,
        "structure"@ != "network"@,
        "structure"@ != "placement"@,
        "structure"@ != "wiring"@,
        "unit"@ != "library"@,
        "unit"@ != "network"@,
        "unit"@ != "placement"@,
        "unit"@ != "structure"@,
        "unit"@ != "wiring"@,
        "via"@ != "rule"@,
        "width"@ != "clearance"@,
{
    reveal_strlit("attach");
    reveal_strlit("boundary");
    reveal_strlit("circle");
    reveal_strlit("circuit");
    reveal_strlit("class");
    reveal_strlit("clearance");
    reveal_strlit("image");
    reveal_strlit("layer");
    reveal_strlit("library");
    reveal_strlit("net");
    reveal_strlit("network");
    reveal_strlit("outline");
    reveal_strlit("padstack");
    reveal_strlit("parser");
    reveal_strlit("pin");
    reveal_strlit("placement");
    reveal_strlit("polygon");
    reveal_strlit("rect");
    reveal_strlit("resolution");
    reveal_strlit("rule");
    reveal_strlit("shape");
    reveal_strlit("structure");
    reveal_strlit("unit");
    reveal_strlit("via");
    reveal_strlit("width");
    reveal_strlit("wiring");
    assert("attach"@.len() == 6);
    assert("boundary"@.len() == 8);
    assert("circle"@.len() == 6);
    assert("circuit"@.len() == 7);
    assert("class"@.len() == 5);
    assert("clearance"@.len() == 9);
    assert("image"@.len() == 5);
    assert("layer"@.len() == 5);
    assert("library"@.len() == 7);
    assert("net"@.len() == 3);
    assert("network"@.len() == 7);
    assert("outline"@.len() == 7);
    assert("padstack"@.len() == 8);
    assert("parser"@.len() == 6);
    assert("pin"@.len() == 3);
    assert("placement"@.len() == 9);
    assert("polygon"@.len() == 7);
    assert("rect"@.len() == 4);
    assert("resolution"@.len() == 10);
    assert("rule"@.len() == 4);
    assert("shape"@.len() == 5);
    assert("structure"@.len() == 9);
    assert("unit"@.len() == 4);
    assert("via"@.len() == 3);
    assert("width"@.len() == 5);
    assert("wiring"@.len() == 6);
    assert("structure"@[0] == 's');
    assert("placement"@[0] == 'p');
    assert("library"@[0] == 'l');
    assert("network"@[0] == 'n');
    assert("parser"@[0] == 'p');
    assert("wiring"@[0] == 'w');
    assert("image"@[0] == 'i');
    assert("layer"@[0] == 'l');
    assert("class"@[0] == 'c');
    assert("shape"@[0] == 's');
    assert("width"@[0] == 'w');
    assert("net"@[0] == 'n');
    assert("pin"@[0] == 'p');
    assert("via"@[0] == 'v');
    assert("rect"@[0] == 'r');
    assert("rule"@[0] == 'r');
    assert("unit"@[0] == 'u');
    assert("circle"@[0] == 'c');
    assert("attach"@[0] == 'a');
    assert("circuit"@[0] == 'c');
    assert("outline"@[0] == 'o');
    assert("polygon"@[0] == 'p');
    assert("boundary"@[0] == 'b');
    assert("padstack"@[0] == 'p');
    assert("clearance"@[0] == 'c');
}

// --- layer --------------------------------------------------------------

/// Shape of a well-formed `layer` scope: the keyword and a name atom.
pub open spec fn layer_ok(es: Seq<SExprModel>) -> bool {
    &&& es.len() >= 2
    &&& is_word(es[0], "layer"@)
    &&& es[1] is Atom
}

/// The layer a well-formed `layer` scope denotes.
pub open spec fn layer_of(es: Seq<SExprModel>) -> LayerV {
    LayerV { name: es[1]->Atom_0 }
}

/// Reads a `(layer <name>)` scope.
pub fn parse_layer(s_expr: &Vec<SExpr>) -> (r: Result<Layer, String>)
    ensures
        r is Ok <==> layer_ok(models_of(s_expr@)),
        r is Ok ==> (r->Ok_0)@ == layer_of(models_of(s_expr@)),
{
    let ghost es = models_of(s_expr@);
    if s_expr.len() == 0 {
        return Err(msg("Expected at least one item in the layer scope"));
    }
    let first_item = match s_expr[0].as_atom() {
        Some(a) => a,
        None => {
            return Err(msg("Expected an atom as the first item in the layer scope"));
        },
    };
    if !word_eq(first_item, "layer") {
        return Err(msg_with("Expected 'layer' as the first item, found: ", first_item));
    }
    if s_expr.len() < 2 {
        return Err(msg("Expected a second item in the layer scope"));
    }
    let second_item = match s_expr[1].as_atom() {
        Some(a) => a,
        None => {
            return Err(msg("Expected an atom as the second item in the layer scope"));
        },
    };
    Ok(Layer { name: second_item.clone() })
}

// --- boundary -----------------------------------------------------------

/// Whether every entry of a coordinate run is a numeric atom.
pub open spec fn numeric_run_ok(q: Seq<SExprModel>) -> bool {
    forall|i: int|
        0 <= i < q.len() ==> (#[trigger] q[i]) is Atom && is_decimal(q[i]->Atom_0)
}

/// Shape of a well-formed `boundary` scope: the keyword, then a list
/// whose first three entries are headers and whose remainder is an
/// even-length run of numeric atoms.
pub open spec fn boundary_ok(es: Seq<SExprModel>) -> bool {
    &&& es.len() >= 2
    &&& is_word(es[0], "boundary"@)
    &&& es[1] is List
    &&& es[1]->List_0.len() >= 3
    &&& numeric_run_ok(es[1]->List_0.skip(3))
    &&& (es[1]->List_0.len() - 3) % 2 == 0
}

/// The coordinate pairs a numeric run denotes, in order.
pub open spec fn points_of(q: Seq<SExprModel>) -> Seq<(i64, i64)> {
    Seq::new((q.len() / 2) as nat, |j: int| (dec_value_micros(q[2 * j]->Atom_0) as i64, dec_value_micros(q[2 * j + 1]->Atom_0) as i64))
}

/// The boundary a well-formed `boundary` scope denotes.
pub open spec fn boundary_of(es: Seq<SExprModel>) -> Seq<(i64, i64)> {
    points_of(es[1]->List_0.skip(3))
}

/// A well-formed boundary run resolves to exactly half as many
/// coordinate pairs as it has numeric atoms, in their original order.
pub proof fn lemma_boundary_pair_count(es: Seq<SExprModel>)
    requires
        boundary_ok(es),
    ensures
        boundary_of(es).len() == (es[1]->List_0.len() - 3) / 2,
        forall|j: int|
            0 <= j < boundary_of(es).len() ==> #[trigger] boundary_of(es)[j] == (
                dec_value_micros(es[1]->List_0.skip(3)[2 * j]->Atom_0) as i64,
                dec_value_micros(es[1]->List_0.skip(3)[2 * j + 1]->Atom_0) as i64,
            ),
{
}

/// Reads a `(boundary (<header>*3 <x> <y> ...))` scope into coordinate
/// pairs, half as many as the run's numeric atoms, in original order.
pub fn parse_boundary(s_expr: &Vec<SExpr>) -> (r: Result<Boundary, String>)
    ensures
        r is Ok <==> boundary_ok(models_of(s_expr@)),
        r is Ok ==> (r->Ok_0).0@ == boundary_of(models_of(s_expr@)),
{
    let ghost es = models_of(s_expr@);
    if s_expr.len() == 0 {
        return Err(msg("Expected at least one item in the boundary scope"));
    }
    let first_item = match s_expr[0].as_atom() {
        Some(a) => a,
        None => {
            return Err(msg("Expected an atom as the first item in the boundary scope"));
        },
    };
    if !word_eq(first_item, "boundary") {
        return Err(msg_with("Expected 'boundary' as the first item, found: ", first_item));
    }
    if s_expr.len() < 2 {
        return Err(msg("Expected a second item in the boundary scope"));
    }
    let second_list = match s_expr[1].as_list() {
        Some(l) => l,
        None => {
            return Err(msg("Expected a list as the second item in the boundary scope"));
        },
    };
    if second_list.len() < 3 {
        return Err(msg("Expected at least three items in the boundary list"));
    }
    let ghost lm = models_of(second_list@);
    let ghost q = lm.skip(3);
    let n = second_list.len();
    let mut points: Vec<(i64, i64)> = Vec::new();
    let mut i: usize = 3;
    while i < n - 1
        invariant
            3 <= i <= n == second_list.len(),
            (i - 3) % 2 == 0,
            lm == models_of(second_list@),
            q == lm.skip(3),
            es == models_of(s_expr@),
            es.len() >= 2,
            es[1] == SExprModel::List(lm),
            points@.len() == (i - 3) / 2,
            forall|idx: int|
                0 <= idx < i - 3 ==> (#[trigger] q[idx]) is Atom && is_decimal(q[idx]->Atom_0),
            forall|j: int|
                0 <= j < points@.len() ==> #[trigger] points@[j] == (
                    dec_value_micros(q[2 * j]->Atom_0) as i64,
                    dec_value_micros(q[2 * j + 1]->Atom_0) as i64,
                ),
        decreases n - i,
    {
        let a = match second_list[i].as_atom() {
            Some(a) => a,
            None => {
                proof {
                    assert(!(q[i - 3] is Atom));
                }
                return Err(msg("Expected an atom in the boundary list"));
            },
        };
        let x = match parse_decimal(a.as_str()) {
            Ok(v) => v,
            Err(_) => {
                proof {
                    assert(q[i - 3] == SExprModel::Atom(a@));
                }
                return Err(msg("Failed to parse boundary number"));
            },
        };
        let b = match second_list[i + 1].as_atom() {
            Some(a) => a,
            None => {
                proof {
                    assert(!(q[i + 1 - 3] is Atom));
                }
                return Err(msg("Expected an atom in the boundary list"));
            },
        };
        let y = match parse_decimal(b.as_str()) {
            Ok(v) => v,
            Err(_) => {
                proof {
                    assert(q[i + 1 - 3] == SExprModel::Atom(b@));
                }
                return Err(msg("Failed to parse boundary number"));
            },
        };
        points.push((x, y));
        i = i + 2;
    }
    if i < n {
        // One numeric atom is left over: the run has odd length.
        return Err(msg("Expected an even number of items in the boundary list"));
    }
    proof {
        assert(points@ =~= points_of(q));
    }
    Ok(Boundary(points))
}

// --- structure ----------------------------------------------------------

/// Whether `e` is a `(layer ...)` entry.
pub open spec fn is_layer_item(e: SExprModel) -> bool {
    e is List && e->List_0.len() >= 1 && is_word(e->List_0[0], "layer"@)
}

/// Whether `e` is a `(boundary ...)` entry.
pub open spec fn is_boundary_item(e: SExprModel) -> bool {
    e is List && e->List_0.len() >= 1 && is_word(e->List_0[0], "boundary"@)
}

/// Shape of one entry of a `structure` scope.
pub open spec fn structure_item_ok(e: SExprModel) -> bool {
    &&& e is List
    &&& e->List_0.len() >= 1
    &&& e->List_0[0] is Atom
    &&& {
        let kw = e->List_0[0]->Atom_0;
        if kw == "layer"@ {
            layer_ok(e->List_0)
        } else if kw == "boundary"@ {
            boundary_ok(e->List_0)
        } else if kw == "via"@ || kw == "rule"@ {
            true
        } else {
            false
        }
    }
}

/// The layers of a `structure` scope from entry `i` on, in order.
pub open spec fn structure_layers(es: Seq<SExprModel>, i: int) -> Seq<LayerV>
    decreases es.len() - i,
{
    if 0 <= i < es.len() {
        let rest = structure_layers(es, i + 1);
        if is_layer_item(es[i]) {
            seq![layer_of(es[i]->List_0)] + rest
        } else {
            rest
        }
    } else {
        Seq::empty()
    }
}

/// The boundary of a `structure` scope from entry `i` on; when several
/// are given the last one wins.
pub open spec fn structure_boundary(es: Seq<SExprModel>, i: int) -> Option<Seq<(i64, i64)>>
    decreases es.len() - i,
{
    if 0 <= i < es.len() {
        let rest = structure_boundary(es, i + 1);
        if rest is Some {
            rest
        } else if is_boundary_item(es[i]) {
            Some(boundary_of(es[i]->List_0))
        } else {
            None
        }
    } else {
        None
    }
}

/// Shape of a well-formed `structure` scope: the keyword, well-formed
/// entries, and at least one boundary.
pub open spec fn structure_ok(es: Seq<SExprModel>) -> bool {
    &&& es.len() >= 1
    &&& is_word(es[0], "structure"@)
    &&& forall|i: int| 1 <= i < es.len() ==> structure_item_ok(#[trigger] es[i])
    &&& structure_boundary(es, 1) is Some
}

/// The structure a well-formed `structure` scope denotes.
pub open spec fn structure_of(es: Seq<SExprModel>) -> StructureV {
    StructureV {
        layers: structure_layers(es, 1),
        boundary: structure_boundary(es, 1).unwrap(),
    }
}

/// The boundary gathered so far, as a mathematical value.
pub open spec fn opt_boundary_v(b: Option<Boundary>) -> Option<Seq<(i64, i64)>> {
    match b {
        Some(bd) => Some(bd.0@),
        None => None,
    }
}

/// Reads a `(structure ...)` scope: its layers in order, and its last
/// `boundary` entry; `via` and `rule` entries are ignored.
pub fn parse_structure(s_expr: &Vec<SExpr>) -> (r: Result<Structure, String>)
    ensures
        r is Ok <==> structure_ok(models_of(s_expr@)),
        r is Ok ==> (r->Ok_0)@ == structure_of(models_of(s_expr@)),
{
    let ghost es = models_of(s_expr@);
    if s_expr.len() == 0 {
        return Err(msg("Expected at least one item in the structure scope"));
    }
    let first_item = match s_expr[0].as_atom() {
        Some(a) => a,
        None => {
            return Err(msg("Expected an atom as the first item in the structure scope"));
        },
    };
    if !word_eq(first_item, "structure") {
        return Err(msg_with("Expected 'structure' as the first item, found: ", first_item));
    }
    let n = s_expr.len();
    let mut layers: Vec<Layer> = Vec::new();
    let mut boundary: Option<Boundary> = None;
    let mut i: usize = 1;
    while i < n
        invariant
            1 <= i <= n == s_expr.len(),
            es == models_of(s_expr@),
            forall|j: int| 1 <= j < i ==> structure_item_ok(#[trigger] es[j]),
            structure_layers(es, 1) == crate::dsn_struct::layers_v(layers@) + structure_layers(
                es,
                i as int,
            ),
            structure_boundary(es, 1) == (if structure_boundary(es, i as int) is Some {
                structure_boundary(es, i as int)
            } else {
                opt_boundary_v(boundary)
            }),
        decreases n - i,
    {
        proof {
            lemma_keywords_distinct();
        }
        let expr_list = match s_expr[i].as_list() {
            Some(l) => l,
            None => {
                return Err(msg("Expected a list in the structure scope"));
            },
        };
        if expr_list.len() == 0 {
            return Err(msg("Expected at least one item in the structure item"));
        }
        let kw = match expr_list[0].as_atom() {
            Some(a) => a,
            None => {
                return Err(msg("Expected an atom as the first item in the structure item"));
            },
        };
        proof {
            assert(es[i as int] == SExprModel::List(models_of(expr_list@)));
            assert(models_of(expr_list@)[0] == SExprModel::Atom(kw@));
        }
        let ghost lv = crate::dsn_struct::layers_v(layers@);
        if word_eq(kw, "layer") {
            let layer = parse_layer(expr_list)?;
            layers.push(layer);
            proof {
                assert(crate::dsn_struct::layers_v(layers@) =~= lv + seq![layer@]);
                assert(lv + (seq![layer@] + structure_layers(es, i + 1)) =~= (lv + seq![layer@])
                    + structure_layers(es, i + 1));
            }
        } else if word_eq(kw, "boundary") {
            let b = parse_boundary(expr_list)?;
            boundary = Some(b);
        } else if word_eq(kw, "via") || word_eq(kw, "rule") {
        } else {
            return Err(msg_with("Unknown structure item: ", kw));
        }
        i = i + 1;
    }
    let boundary = match boundary {
        Some(b) => b,
        None => {
            return Err(msg("Expected a boundary in the structure scope"));
        },
    };
    proof {
        assert(crate::dsn_struct::layers_v(layers@) + Seq::<LayerV>::empty()
            =~= crate::dsn_struct::layers_v(layers@));
    }
    Ok(Structure { layers, boundary })
}

// --- placement ----------------------------------------------------------

/// Shape of one `(place <ref> <x> <y> <side> <rotation>)` entry.
pub open spec fn place_ok(p: Seq<SExprModel>) -> bool {
    &&& p.len() >= 6
    &&& is_word(p[0], "place"@)
    &&& p[1] is Atom
    &&& p[2] is Atom && is_decimal(p[2]->Atom_0)
    &&& p[3] is Atom && is_decimal(p[3]->Atom_0)
    &&& p[5] is Atom && is_decimal(p[5]->Atom_0)
}

/// The instance a well-formed `place` entry denotes.
pub open spec fn place_of(p: Seq<SExprModel>) -> ComponentInstV {
    ComponentInstV {
        reference: p[1]->Atom_0,
        position: (
            dec_value_micros(p[2]->Atom_0) as i64,
            dec_value_micros(p[3]->Atom_0) as i64,
        ),
        rotation: dec_value_micros(p[5]->Atom_0) as i64,
    }
}

/// Shape of one `(component <name> <place>*)` entry.
pub open spec fn component_ok(l: Seq<SExprModel>) -> bool {
    &&& l.len() >= 2
    &&& is_word(l[0], "component"@)
    &&& l[1] is Atom
    &&& forall|j: int|
        2 <= j < l.len() ==> (#[trigger] l[j]) is List && place_ok(l[j]->List_0)
}

/// The component a well-formed `component` entry denotes.
pub open spec fn component_of(l: Seq<SExprModel>) -> ComponentV {
    ComponentV {
        name: l[1]->Atom_0,
        instances: Seq::new((l.len() - 2) as nat, |j: int| place_of(l[j + 2]->List_0)),
    }
}

/// Shape of a well-formed `placement` scope.
pub open spec fn placement_ok(es: Seq<SExprModel>) -> bool {
    &&& es.len() >= 1
    &&& is_word(es[0], "placement"@)
    &&& forall|i: int|
        1 <= i < es.len() ==> (#[trigger] es[i]) is List && component_ok(es[i]->List_0)
}

/// The placement a well-formed `placement` scope denotes.
pub open spec fn placement_of(es: Seq<SExprModel>) -> PlacementV {
    PlacementV {
        components: Seq::new((es.len() - 1) as nat, |i: int| component_of(es[i + 1]->List_0)),
    }
}

/// Reads one `place` entry.
fn parse_place(place_list: &Vec<SExpr>) -> (r: Result<ComponentInst, String>)
    ensures
        r is Ok <==> place_ok(models_of(place_list@)),
        r is Ok ==> (r->Ok_0)@ == place_of(models_of(place_list@)),
{
    let ghost p = models_of(place_list@);
    if place_list.len() == 0 {
        return Err(msg("Expected at least one item in place list"));
    }
    let head = match place_list[0].as_atom() {
        Some(a) => a,
        None => {
            return Err(msg("Expected 'place' as first item in place list"));
        },
    };
    if !word_eq(head, "place") {
        return Err(msg_with("Expected 'place' as first item in place list, found: ", head));
    }
    if place_list.len() < 2 {
        return Err(msg("Expected reference in place list"));
    }
    let reference = match place_list[1].as_atom() {
        Some(a) => a,
        None => {
            return Err(msg("Expected reference to be an atom"));
        },
    };
    if place_list.len() < 3 {
        return Err(msg("Expected x position in place list"));
    }
    let x_atom = match place_list[2].as_atom() {
        Some(a) => a,
        None => {
            return Err(msg("Expected x position to be an atom"));
        },
    };
    let x_pos = match parse_decimal(x_atom.as_str()) {
        Ok(v) => v,
        Err(_) => {
            return Err(msg("Failed to parse x position"));
        },
    };
    if place_list.len() < 4 {
        return Err(msg("Expected y position in place list"));
    }
    let y_atom = match place_list[3].as_atom() {
        Some(a) => a,
        None => {
            return Err(msg("Expected y position to be an atom"));
        },
    };
    let y_pos = match parse_decimal(y_atom.as_str()) {
        Ok(v) => v,
        Err(_) => {
            return Err(msg("Failed to parse y position"));
        },
    };
    if place_list.len() < 6 {
        return Err(msg("Expected rotation in place list"));
    }
    let rot_atom = match place_list[5].as_atom() {
        Some(a) => a,
        None => {
            return Err(msg("Expected rotation to be an atom"));
        },
    };
    let rotation = match parse_decimal(rot_atom.as_str()) {
        Ok(v) => v,
        Err(_) => {
            return Err(msg("Failed to parse rotation"));
        },
    };
    Ok(ComponentInst { reference: reference.clone(), position: (x_pos, y_pos), rotation })
}

/// Reads one `component` entry with its placed instances, in order.
fn parse_component(expr_list: &Vec<SExpr>) -> (r: Result<Component, String>)
    ensures
        r is Ok <==> component_ok(models_of(expr_list@)),
        r is Ok ==> (r->Ok_0)@ == component_of(models_of(expr_list@)),
{
    let ghost l = models_of(expr_list@);
    if expr_list.len() == 0 {
        return Err(msg("Expected at least one item in the placement item"));
    }
    let head = match expr_list[0].as_atom() {
        Some(a) => a,
        None => {
            return Err(msg("Expected an atom as the first item in the placement item"));
        },
    };
    if !word_eq(head, "component") {
        return Err(msg_with(
            "Expected 'component' as the first item in the placement item, found: ",
            head,
        ));
    }
    if expr_list.len() < 2 {
        return Err(msg("Expected component name"));
    }
    let component_name = match expr_list[1].as_atom() {
        Some(a) => a,
        None => {
            return Err(msg("Expected component name to be an atom"));
        },
    };
    let n = expr_list.len();
    let mut instances: Vec<ComponentInst> = Vec::new();
    let mut i: usize = 2;
    while i < n
        invariant
            2 <= i <= n == expr_list.len(),
            l == models_of(expr_list@),
            forall|j: int|
                2 <= j < i ==> (#[trigger] l[j]) is List && place_ok(l[j]->List_0),
            instances@.len() == i - 2,
            forall|j: int|
                0 <= j < i - 2 ==> (#[trigger] instances@[j])@ == place_of(l[j + 2]->List_0),
        decreases n - i,
    {
        let place_list = match expr_list[i].as_list() {
            Some(pl) => pl,
            None => {
                proof {
                    assert(!(l[i as int] is List));
                }
                return Err(msg("Expected place list"));
            },
        };
        proof {
            assert(l[i as int] == SExprModel::List(models_of(place_list@)));
        }
        let inst = parse_place(place_list)?;
        instances.push(inst);
        i = i + 1;
    }
    let r = Component { name: component_name.clone(), instances };
    proof {
        assert(r@.instances =~= component_of(l).instances);
    }
    Ok(r)
}

/// Reads a `(placement ...)` scope: its components in order.
pub fn parse_placement(s_expr: &Vec<SExpr>) -> (r: Result<Placement, String>)
    ensures
        r is Ok <==> placement_ok(models_of(s_expr@)),
        r is Ok ==> (r->Ok_0)@ == placement_of(models_of(s_expr@)),
{
    let ghost es = models_of(s_expr@);
    if s_expr.len() == 0 {
        return Err(msg("Expected at least one item in the placement scope"));
    }
    let first_item = match s_expr[0].as_atom() {
        Some(a) => a,
        None => {
            return Err(msg("Expected an atom as the first item in the placement scope"));
        },
    };
    if !word_eq(first_item, "placement") {
        return Err(msg_with("Expected 'placement' as the first item, found: ", first_item));
    }
    let n = s_expr.len();
    let mut components: Vec<Component> = Vec::new();
    let mut i: usize = 1;
    while i < n
        invariant
            1 <= i <= n == s_expr.len(),
            es == models_of(s_expr@),
            forall|j: int|
                1 <= j < i ==> (#[trigger] es[j]) is List && component_ok(es[j]->List_0),
            components@.len() == i - 1,
            forall|j: int|
                0 <= j < i - 1 ==> (#[trigger] components@[j])@ == component_of(
                    es[j + 1]->List_0,
                ),
        decreases n - i,
    {
        let expr_list = match s_expr[i].as_list() {
            Some(lst) => lst,
            None => {
                proof {
                    assert(!(es[i as int] is List));
                }
                return Err(msg("Expected a list in the placement scope"));
            },
        };
        proof {
            assert(es[i as int] == SExprModel::List(models_of(expr_list@)));
        }
        let component = parse_component(expr_list)?;
        components.push(component);
        i = i + 1;
    }
    let r = Placement { components };
    proof {
        assert(r@.components =~= placement_of(es).components);
    }
    Ok(r)
}

// --- image --------------------------------------------------------------

/// Shape of one `(pin <padstack> <number> <x> <y>)` entry.
pub open spec fn pin_ok(l: Seq<SExprModel>) -> bool {
    &&& l.len() >= 5
    &&& l[1] is Atom
    &&& l[2] is Atom && is_usize_digits(l[2]->Atom_0)
    &&& l[3] is Atom && is_decimal(l[3]->Atom_0)
    &&& l[4] is Atom && is_decimal(l[4]->Atom_0)
}

/// The pin a well-formed `pin` entry denotes.
pub open spec fn pin_of(l: Seq<SExprModel>) -> PinV {
    PinV {
        pad_stack_name: l[1]->Atom_0,
        pin_number: digits_val(l[2]->Atom_0) as usize,
        position: (
            dec_value_micros(l[3]->Atom_0) as i64,
            dec_value_micros(l[4]->Atom_0) as i64,
        ),
    }
}

pub open spec fn is_pin_item(e: SExprModel) -> bool {
    e is List && e->List_0.len() >= 1 && is_word(e->List_0[0], "pin"@)
}

/// Shape of one entry of an `image` scope.
pub open spec fn image_item_ok(e: SExprModel) -> bool {
    &&& e is List
    &&& e->List_0.len() >= 1
    &&& e->List_0[0] is Atom
    &&& {
        let kw = e->List_0[0]->Atom_0;
        if kw == "outline"@ {
            true
        } else if kw == "pin"@ {
            pin_ok(e->List_0)
        } else {
            false
        }
    }
}

/// The pins of an `image` scope from entry `i` on, added to `acc`; a
/// later pin with the same number replaces the earlier one.
pub open spec fn image_pins_from(es: Seq<SExprModel>, i: int, acc: Seq<PinV>) -> Seq<PinV>
    decreases es.len() - i,
{
    if 0 <= i < es.len() {
        let acc2 = if is_pin_item(es[i]) {
            crate::dsn_struct::upsert_pin_v(acc, pin_of(es[i]->List_0))
        } else {
            acc
        };
        image_pins_from(es, i + 1, acc2)
    } else {
        acc
    }
}

/// Shape of a well-formed `image` scope.
pub open spec fn image_ok(es: Seq<SExprModel>) -> bool {
    &&& es.len() >= 2
    &&& is_word(es[0], "image"@)
    &&& es[1] is Atom
    &&& forall|i: int| 2 <= i < es.len() ==> image_item_ok(#[trigger] es[i])
}

/// The image a well-formed `image` scope denotes.
pub open spec fn image_of(es: Seq<SExprModel>) -> ImageV {
    ImageV { name: es[1]->Atom_0, pins: image_pins_from(es, 2, Seq::empty()) }
}

/// Reads an `(image <name> ...)` scope; `outline` entries are ignored,
/// and a duplicate pin number keeps only the later pin.
pub fn parse_image(s_expr: &Vec<SExpr>) -> (r: Result<Image, String>)
    ensures
        r is Ok <==> image_ok(models_of(s_expr@)),
        r is Ok ==> (r->Ok_0)@ == image_of(models_of(s_expr@)),
{
    let ghost es = models_of(s_expr@);
    if s_expr.len() == 0 {
        return Err(msg("Expected at least one item in the image scope"));
    }
    let first_item = match s_expr[0].as_atom() {
        Some(a) => a,
        None => {
            return Err(msg("Expected an atom as the first item in the image scope"));
        },
    };
    if !word_eq(first_item, "image") {
        return Err(msg_with("Expected 'image' as the first item, found: ", first_item));
    }
    if s_expr.len() < 2 {
        return Err(msg("Expected image name as the second item"));
    }
    let image_name = match s_expr[1].as_atom() {
        Some(a) => a,
        None => {
            return Err(msg("Expected image name to be an atom"));
        },
    };
    let n = s_expr.len();
    let mut image = Image { name: image_name.clone(), pins: Vec::new() };
    proof {
        assert(crate::dsn_struct::pins_v(image.pins@) =~= Seq::<PinV>::empty());
    }
    let mut i: usize = 2;
    while i < n
        invariant
            2 <= i <= n == s_expr.len(),
            es == models_of(s_expr@),
            forall|j: int| 2 <= j < i ==> image_item_ok(#[trigger] es[j]),
            image@.name == es[1]->Atom_0,
            es[1] is Atom,
            image_pins_from(es, 2, Seq::empty()) == image_pins_from(
                es,
                i as int,
                crate::dsn_struct::pins_v(image.pins@),
            ),
        decreases n - i,
    {
        proof {
            lemma_keywords_distinct();
        }
        let expr_list = match s_expr[i].as_list() {
            Some(l) => l,
            None => {
                proof {
                    assert(!(es[i as int] is List));
                }
                return Err(msg("Expected a list in the image scope"));
            },
        };
        if expr_list.len() == 0 {
            return Err(msg("Expected at least one item in the image item"));
        }
        let kw = match expr_list[0].as_atom() {
            Some(a) => a,
            None => {
                return Err(msg("Expected an atom as the first item in the image item"));
            },
        };
        proof {
            assert(es[i as int] == SExprModel::List(models_of(expr_list@)));
            assert(models_of(expr_list@)[0] == SExprModel::Atom(kw@));
        }
        if word_eq(kw, "outline") {
        } else if word_eq(kw, "pin") {
            if expr_list.len() < 5 {
                return Err(msg("Expected padstack name, pin number, x and y in the pin item"));
            }
            let pad_stack_name = match expr_list[1].as_atom() {
                Some(a) => a,
                None => {
                    return Err(msg("Pad stack name must be an atom"));
                },
            };
            let num_atom = match expr_list[2].as_atom() {
                Some(a) => a,
                None => {
                    return Err(msg("Pin number must be an atom"));
                },
            };
            let pin_number = match parse_usize(num_atom.as_str()) {
                Ok(v) => v,
                Err(_) => {
                    return Err(msg("Invalid pin number"));
                },
            };
            let x_atom = match expr_list[3].as_atom() {
                Some(a) => a,
                None => {
                    return Err(msg("X coordinate must be a number"));
                },
            };
            let x = match parse_decimal(x_atom.as_str()) {
                Ok(v) => v,
                Err(_) => {
                    return Err(msg("Invalid x coordinate"));
                },
            };
            let y_atom = match expr_list[4].as_atom() {
                Some(a) => a,
                None => {
                    return Err(msg("Y coordinate must be a number"));
                },
            };
            let y = match parse_decimal(y_atom.as_str()) {
                Ok(v) => v,
                Err(_) => {
                    return Err(msg("Invalid y coordinate"));
                },
            };
            let pin = Pin { pad_stack_name: pad_stack_name.clone(), pin_number, position: (x, y) };
            proof {
                assert(pin@ == pin_of(es[i as int]->List_0));
            }
            image.upsert_pin(pin);
        } else {
            return Err(msg_with("Unknown image item: ", kw));
        }
        i = i + 1;
    }
    Ok(image)
}

// --- shape --------------------------------------------------------------

/// Shape of a `(shape (<kind> <layer> ...))` scope: one retained kind.
/// A polygon carries an aperture width and an even run of at least
/// three vertex coordinate pairs.
pub open spec fn shape_ok(es: Seq<SExprModel>) -> bool {
    &&& es.len() >= 2
    &&& es[1] is List
    &&& {
        let inner = es[1]->List_0;
        &&& inner.len() >= 1
        &&& inner[0] is Atom
        &&& {
            let kw = inner[0]->Atom_0;
            if kw == "circle"@ {
                inner.len() >= 3 && inner[2] is Atom && is_decimal(inner[2]->Atom_0)
            } else if kw == "rect"@ {
                &&& inner.len() >= 6
                &&& inner[2] is Atom && is_decimal(inner[2]->Atom_0)
                &&& inner[3] is Atom && is_decimal(inner[3]->Atom_0)
                &&& inner[4] is Atom && is_decimal(inner[4]->Atom_0)
                &&& inner[5] is Atom && is_decimal(inner[5]->Atom_0)
            } else if kw == "polygon"@ {
                &&& inner.len() >= 4
                &&& inner[2] is Atom && is_decimal(inner[2]->Atom_0)
                &&& (inner.len() - 3) % 2 == 0
                &&& (inner.len() - 3) / 2 >= 3
                &&& forall|j: int|
                    0 <= j < (inner.len() - 3) / 2 ==> (#[trigger] inner[3 + 2 * j]) is Atom
                        && is_decimal(inner[3 + 2 * j]->Atom_0) && inner[4 + 2 * j] is Atom
                        && is_decimal(inner[4 + 2 * j]->Atom_0)
            } else {
                false
            }
        }
    }
}

/// The retained shape a well-formed `shape` scope denotes.
pub open spec fn shape_of(es: Seq<SExprModel>) -> ShapeV {
    let inner = es[1]->List_0;
    let kw = inner[0]->Atom_0;
    if kw == "circle"@ {
        ShapeV::Circle { diameter: dec_value_micros(inner[2]->Atom_0) as i64 }
    } else if kw == "rect"@ {
        ShapeV::Rect {
            x_min: dec_value_micros(inner[2]->Atom_0) as i64,
            y_min: dec_value_micros(inner[3]->Atom_0) as i64,
            x_max: dec_value_micros(inner[4]->Atom_0) as i64,
            y_max: dec_value_micros(inner[5]->Atom_0) as i64,
        }
    } else {
        ShapeV::Polygon {
            aperture_width: dec_value_micros(inner[2]->Atom_0) as i64,
            vertices: Seq::new(((inner.len() - 3) / 2) as nat, |j: int| (
                dec_value_micros(inner[3 + 2 * j]->Atom_0) as i64,
                dec_value_micros(inner[4 + 2 * j]->Atom_0) as i64,
            )),
        }
    }
}

/// Reads a `(shape ...)` scope: a circle, a rectangle, or a polygon
/// with at least three vertex pairs and no unpaired coordinate.
pub fn parse_shape(s_expr: &Vec<SExpr>) -> (r: Result<Shape, String>)
    ensures
        r is Ok <==> shape_ok(models_of(s_expr@)),
        r is Ok ==> (r->Ok_0)@ == shape_of(models_of(s_expr@)),
{
    let ghost es = models_of(s_expr@);
    proof {
        lemma_keywords_distinct();
    }
    if s_expr.len() < 2 {
        return Err(msg("Missing shape type"));
    }
    let shape_type = match s_expr[1].as_list() {
        Some(l) => l,
        None => {
            return Err(msg("Shape type must be a list"));
        },
    };
    if shape_type.len() == 0 {
        return Err(msg("Empty shape definition"));
    }
    let kind = match shape_type[0].as_atom() {
        Some(a) => a,
        None => {
            return Err(msg("Shape type must be an atom"));
        },
    };
    let ghost inner = models_of(shape_type@);
    proof {
        assert(es[1] == SExprModel::List(inner));
        assert(inner[0] == SExprModel::Atom(kind@));
    }
    if word_eq(kind, "circle") {
        if shape_type.len() < 3 {
            return Err(msg("Circle diameter must be a number"));
        }
        let d_atom = match shape_type[2].as_atom() {
            Some(a) => a,
            None => {
                return Err(msg("Circle diameter must be a number"));
            },
        };
        let diameter = match parse_decimal(d_atom.as_str()) {
            Ok(v) => v,
            Err(_) => {
                return Err(msg("Invalid circle diameter"));
            },
        };
        Ok(Shape::Circle { diameter })
    } else if word_eq(kind, "rect") {
        if shape_type.len() < 6 {
            return Err(msg("Rect requires 4 coordinates"));
        }
        let x_min_atom = match shape_type[2].as_atom() {
            Some(a) => a,
            None => {
                return Err(msg("Rect x_min must be a number"));
            },
        };
        let x_min = match parse_decimal(x_min_atom.as_str()) {
            Ok(v) => v,
            Err(_) => {
                return Err(msg("Invalid x_min"));
            },
        };
        let y_min_atom = match shape_type[3].as_atom() {
            Some(a) => a,
            None => {
                return Err(msg("Rect y_min must be a number"));
            },
        };
        let y_min = match parse_decimal(y_min_atom.as_str()) {
            Ok(v) => v,
            Err(_) => {
                return Err(msg("Invalid y_min"));
            },
        };
        let x_max_atom = match shape_type[4].as_atom() {
            Some(a) => a,
            None => {
                return Err(msg("Rect x_max must be a number"));
            },
        };
        let x_max = match parse_decimal(x_max_atom.as_str()) {
            Ok(v) => v,
            Err(_) => {
                return Err(msg("Invalid x_max"));
            },
        };
        let y_max_atom = match shape_type[5].as_atom() {
            Some(a) => a,
            None => {
                return Err(msg("Rect y_max must be a number"));
            },
        };
        let y_max = match parse_decimal(y_max_atom.as_str()) {
            Ok(v) => v,
            Err(_) => {
                return Err(msg("Invalid y_max"));
            },
        };
        Ok(Shape::Rect { x_min, y_min, x_max, y_max })
    } else if word_eq(kind, "polygon") {
        if shape_type.len() < 4 {
            return Err(msg("Polygon requires aperture width and vertices"));
        }
        let w_atom = match shape_type[2].as_atom() {
            Some(a) => a,
            None => {
                return Err(msg("Aperture width must be a number"));
            },
        };
        let aperture_width = match parse_decimal(w_atom.as_str()) {
            Ok(v) => v,
            Err(_) => {
                return Err(msg("Invalid aperture width"));
            },
        };
        let n = shape_type.len();
        if (n - 3) % 2 != 0 {
            return Err(msg("Polygon has an unpaired vertex coordinate"));
        }
        if n < 9 {
            return Err(msg("Polygon requires at least 3 vertex pairs"));
        }
        let mut vertices: Vec<(i64, i64)> = Vec::new();
        let mut i: usize = 3;
        while i < n - 1
            invariant
                3 <= i <= n == shape_type.len(),
                n >= 9,
                (n - 3) % 2 == 0,
                (i - 3) % 2 == 0,
                es == models_of(s_expr@),
                es.len() >= 2,
                inner == models_of(shape_type@),
                es[1] == SExprModel::List(inner),
                inner[0] == SExprModel::Atom("polygon"@),
                vertices@.len() == (i - 3) / 2,
                forall|idx: int|
                    3 <= idx < i ==> (#[trigger] inner[idx]) is Atom && is_decimal(
                        inner[idx]->Atom_0,
                    ),
                forall|j: int|
                    0 <= j < vertices@.len() ==> #[trigger] vertices@[j] == (
                        dec_value_micros(inner[3 + 2 * j]->Atom_0) as i64,
                        dec_value_micros(inner[4 + 2 * j]->Atom_0) as i64,
                    ),
            decreases n - i,
        {
            let ghost vj = (i - 3) as int / 2;
            proof {
                lemma_keywords_distinct();
                assert(2 * vj == i - 3);
                assert(3 + 2 * vj == i);
                assert(4 + 2 * vj == i + 1);
                assert(2 * vj <= inner.len() - 5);
                assert(0 <= vj < (inner.len() - 3) / 2);
            }
            let x_atom = match shape_type[i].as_atom() {
                Some(a) => a,
                None => {
                    proof {
                        assert(!(inner[3 + 2 * vj] is Atom));
                    }
                    return Err(msg("Vertex x must be a number"));
                },
            };
            let x = match parse_decimal(x_atom.as_str()) {
                Ok(v) => v,
                Err(_) => {
                    proof {
                        assert(inner[3 + 2 * vj] == SExprModel::Atom(x_atom@));
                    }
                    return Err(msg("Invalid vertex x"));
                },
            };
            let y_atom = match shape_type[i + 1].as_atom() {
                Some(a) => a,
                None => {
                    proof {
                        assert(!(inner[4 + 2 * vj] is Atom));
                    }
                    return Err(msg("Vertex y must be a number"));
                },
            };
            let y = match parse_decimal(y_atom.as_str()) {
                Ok(v) => v,
                Err(_) => {
                    proof {
                        assert(inner[4 + 2 * vj] == SExprModel::Atom(y_atom@));
                    }
                    return Err(msg("Invalid vertex y"));
                },
            };
            vertices.push((x, y));
            i = i + 2;
        }
        let r = Shape::Polygon { aperture_width, vertices };
        proof {
            assert(r@->Polygon_vertices =~= shape_of(es)->Polygon_vertices);
        }
        Ok(r)
    } else {
        Err(msg_with("Unknown shape type: ", kind))
    }
}

// --- padstack -----------------------------------------------------------

pub open spec fn is_shape_item(e: SExprModel) -> bool {
    e is List && e->List_0.len() >= 1 && is_word(e->List_0[0], "shape"@)
}

/// Shape of one entry of a `padstack` scope.  Only the first `shape`
/// entry is read in full; later ones only raise the shape count.
pub open spec fn padstack_item_ok(e: SExprModel) -> bool {
    &&& e is List
    &&& e->List_0.len() >= 1
    &&& e->List_0[0] is Atom
    &&& (e->List_0[0]->Atom_0 == "shape"@ || e->List_0[0]->Atom_0 == "attach"@)
}

/// Index of the first `shape` entry at or after `i`, or the length.
pub open spec fn first_shape_idx(es: Seq<SExprModel>, i: int) -> int
    decreases es.len() - i,
{
    if 0 <= i < es.len() {
        if is_shape_item(es[i]) {
            i
        } else {
            first_shape_idx(es, i + 1)
        }
    } else {
        es.len() as int
    }
}

/// How many `shape` entries follow from `i` on.
pub open spec fn shape_item_count(es: Seq<SExprModel>, i: int) -> int
    decreases es.len() - i,
{
    if 0 <= i < es.len() {
        (if is_shape_item(es[i]) {
            1int
        } else {
            0int
        }) + shape_item_count(es, i + 1)
    } else {
        0
    }
}

/// Shape of a well-formed `padstack` scope: the keyword, a name, only
/// `shape` and `attach` entries, and a readable first shape.
pub open spec fn padstack_ok(es: Seq<SExprModel>) -> bool {
    &&& es.len() >= 2
    &&& is_word(es[0], "padstack"@)
    &&& es[1] is Atom
    &&& forall|i: int| 2 <= i < es.len() ==> padstack_item_ok(#[trigger] es[i])
    &&& first_shape_idx(es, 2) < es.len()
    &&& shape_ok(es[first_shape_idx(es, 2)]->List_0)
}

/// The pad stack a well-formed `padstack` scope denotes: its first
/// shape, and a through-hole flag meaning more than one shape entry.
pub open spec fn padstack_of(es: Seq<SExprModel>) -> PadStackV {
    PadStackV {
        name: es[1]->Atom_0,
        shape: shape_of(es[first_shape_idx(es, 2)]->List_0),
        through_hole: shape_item_count(es, 2) > 1,
    }
}

/// Reads a `(padstack <name> ...)` scope; later shapes are dropped, and
/// their presence alone marks the pad stack as through-hole.
pub fn parse_padstack(s_expr: &Vec<SExpr>) -> (r: Result<PadStack, String>)
    ensures
        r is Ok <==> padstack_ok(models_of(s_expr@)),
        r is Ok ==> (r->Ok_0)@ == padstack_of(models_of(s_expr@)),
{
    let ghost es = models_of(s_expr@);
    if s_expr.len() == 0 {
        return Err(msg("Expected at least one item in the padstack scope"));
    }
    let first_item = match s_expr[0].as_atom() {
        Some(a) => a,
        None => {
            return Err(msg("Expected an atom as the first item in the padstack scope"));
        },
    };
    if !word_eq(first_item, "padstack") {
        return Err(msg_with("Expected 'padstack' as the first item, found: ", first_item));
    }
    if s_expr.len() < 2 {
        return Err(msg("Expected padstack name as the second item"));
    }
    let padstack_name = match s_expr[1].as_atom() {
        Some(a) => a,
        None => {
            return Err(msg("Expected padstack name to be an atom"));
        },
    };
    let n = s_expr.len();
    let mut shapes: Option<Shape> = None;
    let mut shape_num: usize = 0;
    let mut i: usize = 2;
    while i < n
        invariant
            2 <= i <= n == s_expr.len(),
            es == models_of(s_expr@),
            shape_num <= i,
            forall|j: int| 2 <= j < i ==> padstack_item_ok(#[trigger] es[j]),
            shape_num as int == shape_item_count(es, 2) - shape_item_count(es, i as int),
            shapes is None ==> first_shape_idx(es, 2) == first_shape_idx(es, i as int),
            shapes is Some ==> first_shape_idx(es, 2) < i && shape_ok(
                es[first_shape_idx(es, 2)]->List_0,
            ) && shapes->0@ == shape_of(es[first_shape_idx(es, 2)]->List_0),
        decreases n - i,
    {
        proof {
            lemma_keywords_distinct();
        }
        let expr_list = match s_expr[i].as_list() {
            Some(l) => l,
            None => {
                proof {
                    assert(!(es[i as int] is List));
                }
                return Err(msg("Expected a list in the padstack scope"));
            },
        };
        if expr_list.len() == 0 {
            return Err(msg("Expected at least one item in the padstack item"));
        }
        let kw = match expr_list[0].as_atom() {
            Some(a) => a,
            None => {
                return Err(msg("Expected an atom as the first item in the padstack item"));
            },
        };
        proof {
            assert(es[i as int] == SExprModel::List(models_of(expr_list@)));
            assert(models_of(expr_list@)[0] == SExprModel::Atom(kw@));
        }
        if word_eq(kw, "shape") {
            shape_num = shape_num + 1;
            if shapes.is_none() {
                proof {
                    assert(first_shape_idx(es, i as int) == i);
                }
                let parsed = parse_shape(expr_list)?;
                shapes = Some(parsed);
            }
        } else if word_eq(kw, "attach") {
        } else {
            return Err(msg_with("Unknown padstack item: ", kw));
        }
        i = i + 1;
    }
    let shape = match shapes {
        Some(sh) => sh,
        None => {
            return Err(msg("Padstack must have at least one shape"));
        },
    };
    let through_hole = shape_num > 1;
    Ok(PadStack { name: padstack_name.clone(), shape, through_hole })
}

// --- library ------------------------------------------------------------

pub open spec fn is_image_item(e: SExprModel) -> bool {
    e is List && e->List_0.len() >= 1 && is_word(e->List_0[0], "image"@)
}

pub open spec fn is_padstack_item(e: SExprModel) -> bool {
    e is List && e->List_0.len() >= 1 && is_word(e->List_0[0], "padstack"@)
}

/// Shape of one entry of a `library` scope.
pub open spec fn library_item_ok(e: SExprModel) -> bool {
    &&& e is List
    &&& e->List_0.len() >= 1
    &&& e->List_0[0] is Atom
    &&& {
        let kw = e->List_0[0]->Atom_0;
        if kw == "image"@ {
            image_ok(e->List_0)
        } else if kw == "padstack"@ {
            padstack_ok(e->List_0)
        } else {
            false
        }
    }
}

/// The images of a `library` scope from entry `i` on, added to `acc`;
/// a later image with the same name replaces the earlier one.
pub open spec fn library_images_from(es: Seq<SExprModel>, i: int, acc: Seq<ImageV>) -> Seq<ImageV>
    decreases es.len() - i,
{
    if 0 <= i < es.len() {
        let acc2 = if is_image_item(es[i]) {
            crate::dsn_struct::upsert_image_v(acc, image_of(es[i]->List_0))
        } else {
            acc
        };
        library_images_from(es, i + 1, acc2)
    } else {
        acc
    }
}

/// The pad stacks of a `library` scope from entry `i` on, added to
/// `acc`; a later definition with the same name replaces the earlier.
pub open spec fn library_pad_stacks_from(
    es: Seq<SExprModel>,
    i: int,
    acc: Seq<PadStackV>,
) -> Seq<PadStackV>
    decreases es.len() - i,
{
    if 0 <= i < es.len() {
        let acc2 = if is_padstack_item(es[i]) {
            crate::dsn_struct::upsert_pad_stack_v(acc, padstack_of(es[i]->List_0))
        } else {
            acc
        };
        library_pad_stacks_from(es, i + 1, acc2)
    } else {
        acc
    }
}

/// Shape of a well-formed `library` scope.
pub open spec fn library_ok(es: Seq<SExprModel>) -> bool {
    &&& es.len() >= 1
    &&& is_word(es[0], "library"@)
    &&& forall|i: int| 1 <= i < es.len() ==> library_item_ok(#[trigger] es[i])
}

/// The library a well-formed `library` scope denotes.
pub open spec fn library_of(es: Seq<SExprModel>) -> LibraryV {
    LibraryV {
        images: library_images_from(es, 1, Seq::empty()),
        pad_stacks: library_pad_stacks_from(es, 1, Seq::empty()),
    }
}

/// Reads a `(library ...)` scope: its images and pad stacks, keyed by
/// name, a later definition replacing an earlier one.
pub fn parse_library(s_expr: &Vec<SExpr>) -> (r: Result<Library, String>)
    ensures
        r is Ok <==> library_ok(models_of(s_expr@)),
        r is Ok ==> (r->Ok_0)@ == library_of(models_of(s_expr@)),
{
    let ghost es = models_of(s_expr@);
    if s_expr.len() == 0 {
        return Err(msg("Expected at least one item in the library scope"));
    }
    let first_item = match s_expr[0].as_atom() {
        Some(a) => a,
        None => {
            return Err(msg("Expected an atom as the first item in the library scope"));
        },
    };
    if !word_eq(first_item, "library") {
        return Err(msg_with("Expected 'library' as the first item, found: ", first_item));
    }
    let n = s_expr.len();
    let mut library = Library { images: Vec::new(), pad_stacks: Vec::new() };
    proof {
        assert(crate::dsn_struct::images_v(library.images@) =~= Seq::<ImageV>::empty());
        assert(crate::dsn_struct::pad_stacks_v(library.pad_stacks@)
            =~= Seq::<PadStackV>::empty());
    }
    let mut i: usize = 1;
    while i < n
        invariant
            1 <= i <= n == s_expr.len(),
            es == models_of(s_expr@),
            forall|j: int| 1 <= j < i ==> library_item_ok(#[trigger] es[j]),
            library_images_from(es, 1, Seq::empty()) == library_images_from(
                es,
                i as int,
                crate::dsn_struct::images_v(library.images@),
            ),
            library_pad_stacks_from(es, 1, Seq::empty()) == library_pad_stacks_from(
                es,
                i as int,
                crate::dsn_struct::pad_stacks_v(library.pad_stacks@),
            ),
        decreases n - i,
    {
        proof {
            lemma_keywords_distinct();
        }
        let expr_list = match s_expr[i].as_list() {
            Some(l) => l,
            None => {
                proof {
                    assert(!(es[i as int] is List));
                }
                return Err(msg("Expected a list in the library scope"));
            },
        };
        if expr_list.len() == 0 {
            return Err(msg("Expected at least one item in the library item"));
        }
        let kw = match expr_list[0].as_atom() {
            Some(a) => a,
            None => {
                return Err(msg("Expected an atom as the first item in the library item"));
            },
        };
        proof {
            assert(es[i as int] == SExprModel::List(models_of(expr_list@)));
            assert(models_of(expr_list@)[0] == SExprModel::Atom(kw@));
        }
        if word_eq(kw, "image") {
            let image = parse_image(expr_list)?;
            library.upsert_image(image);
        } else if word_eq(kw, "padstack") {
            let padstack = parse_padstack(expr_list)?;
            library.upsert_pad_stack(padstack);
        } else {
            return Err(msg_with("Unknown library item: ", kw));
        }
        i = i + 1;
    }
    Ok(library)
}

// --- net ----------------------------------------------------------------

/// Position of the first `-` at or after `i`, or the length.
pub open spec fn first_dash(t: Seq<char>, i: int) -> int
    decreases t.len() - i,
{
    if 0 <= i < t.len() {
        if t[i] == '-' {
            i
        } else {
            first_dash(t, i + 1)
        }
    } else {
        t.len() as int
    }
}

/// Whether `t` has the form `REFERENCE-PINNUMBER`: exactly one dash,
/// followed by a pin number that fits.
pub open spec fn pin_token_ok(t: Seq<char>) -> bool {
    let d = first_dash(t, 0);
    &&& d < t.len()
    &&& first_dash(t, d + 1) == t.len()
    &&& is_usize_digits(t.subrange(d + 1, t.len() as int))
}

/// The component reference before the dash.
pub open spec fn pin_token_component(t: Seq<char>) -> Seq<char> {
    t.subrange(0, first_dash(t, 0))
}

/// The pin number after the dash.
pub open spec fn pin_token_number(t: Seq<char>) -> int {
    digits_val(t.subrange(first_dash(t, 0) + 1, t.len() as int))
}

/// Finds the first dash at or after `from`.
fn find_dash(s: &str, from: usize) -> (r: usize)
    requires
        from <= s@.len(),
    ensures
        r as int == first_dash(s@, from as int),
        from <= r <= s@.len(),
{
    let len = s.unicode_len();
    let mut i: usize = from;
    while i < len && s.get_char(i) != '-'
        invariant
            from <= i <= len == s@.len(),
            first_dash(s@, from as int) == first_dash(s@, i as int),
        decreases len - i,
    {
        i = i + 1;
    }
    i
}

/// Splits a `REFERENCE-PINNUMBER` token into a net pin reference.
fn split_pin_token(tok: &String) -> (r: Result<Pin2, String>)
    ensures
        r is Ok <==> pin_token_ok(tok@),
        r is Ok ==> (r->Ok_0)@ == (Pin2V {
            component_name: pin_token_component(tok@),
            pin_number: pin_token_number(tok@) as usize,
        }),
{
    let t = tok.as_str();
    let len = t.unicode_len();
    let d = find_dash(t, 0);
    if d == len {
        return Err(msg_with("Invalid pin format: expected 'COMPONENT-PINNUM', got ", tok));
    }
    let d2 = find_dash(t, d + 1);
    if d2 < len {
        return Err(msg_with("Invalid pin format: expected 'COMPONENT-PINNUM', got ", tok));
    }
    let component_name = String::from_str(t.substring_char(0, d));
    let digits = t.substring_char(d + 1, len);
    let pin_number = match parse_usize(digits) {
        Ok(v) => v,
        Err(_) => {
            return Err(msg_with("Invalid pin number in ", tok));
        },
    };
    Ok(Pin2 { component_name, pin_number })
}

/// Shape of a well-formed `net` scope: the keyword, a name, and a
/// `(pins <REF-PIN>*)` list.
pub open spec fn net_ok(es: Seq<SExprModel>) -> bool {
    &&& es.len() >= 3
    &&& is_word(es[0], "net"@)
    &&& es[1] is Atom
    &&& es[2] is List
    &&& {
        let pl = es[2]->List_0;
        &&& pl.len() >= 1
        &&& is_word(pl[0], "pins"@)
        &&& forall|j: int|
            1 <= j < pl.len() ==> (#[trigger] pl[j]) is Atom && pin_token_ok(pl[j]->Atom_0)
    }
}

/// The net a well-formed `net` scope denotes.
pub open spec fn net_of(es: Seq<SExprModel>) -> NetV {
    let pl = es[2]->List_0;
    NetV {
        name: es[1]->Atom_0,
        pins: Seq::new((pl.len() - 1) as nat, |j: int| Pin2V {
            component_name: pin_token_component(pl[j + 1]->Atom_0),
            pin_number: pin_token_number(pl[j + 1]->Atom_0) as usize,
        }),
    }
}

/// Reads a `(net <name> (pins <REF-PIN>*))` scope.
pub fn parse_net(s_expr: &Vec<SExpr>) -> (r: Result<Net, String>)
    ensures
        r is Ok <==> net_ok(models_of(s_expr@)),
        r is Ok ==> (r->Ok_0)@ == net_of(models_of(s_expr@)),
{
    let ghost es = models_of(s_expr@);
    if s_expr.len() == 0 {
        return Err(msg("Expected at least one item in the net scope"));
    }
    let first_item = match s_expr[0].as_atom() {
        Some(a) => a,
        None => {
            return Err(msg("Expected an atom as the first item in the net scope"));
        },
    };
    if !word_eq(first_item, "net") {
        return Err(msg_with("Expected 'net' as the first item, found: ", first_item));
    }
    if s_expr.len() < 2 {
        return Err(msg("Expected net name as the second item"));
    }
    let net_name = match s_expr[1].as_atom() {
        Some(a) => a,
        None => {
            return Err(msg("Expected net name to be an atom"));
        },
    };
    if s_expr.len() < 3 {
        return Err(msg("Pins must be a list"));
    }
    let pins_list = match s_expr[2].as_list() {
        Some(l) => l,
        None => {
            return Err(msg("Pins must be a list"));
        },
    };
    let ghost pl = models_of(pins_list@);
    proof {
        assert(es[2] == SExprModel::List(pl));
    }
    if pins_list.len() == 0 {
        return Err(msg("Empty pins list"));
    }
    let pins_head = match pins_list[0].as_atom() {
        Some(a) => a,
        None => {
            return Err(msg("Pins list must start with 'pins'"));
        },
    };
    if !word_eq(pins_head, "pins") {
        return Err(msg_with("Expected 'pins', got ", pins_head));
    }
    let n = pins_list.len();
    let mut pins: Vec<Pin2> = Vec::new();
    let mut j: usize = 1;
    while j < n
        invariant
            1 <= j <= n == pins_list.len(),
            es == models_of(s_expr@),
            es.len() >= 3,
            pl == models_of(pins_list@),
            es[2] == SExprModel::List(pl),
            forall|k: int|
                1 <= k < j ==> (#[trigger] pl[k]) is Atom && pin_token_ok(pl[k]->Atom_0),
            pins@.len() == j - 1,
            forall|k: int|
                0 <= k < j - 1 ==> (#[trigger] pins@[k])@ == (Pin2V {
                    component_name: pin_token_component(pl[k + 1]->Atom_0),
                    pin_number: pin_token_number(pl[k + 1]->Atom_0) as usize,
                }),
        decreases n - j,
    {
        let pin_str = match pins_list[j].as_atom() {
            Some(a) => a,
            None => {
                proof {
                    assert(!(pl[j as int] is Atom));
                }
                return Err(msg("Expected pin as atom (e.g. 'U1-5')"));
            },
        };
        let pin = split_pin_token(pin_str)?;
        pins.push(pin);
        j = j + 1;
    }
    let r = Net { name: net_name.clone(), pins };
    proof {
        assert(r@.pins =~= net_of(es).pins);
    }
    Ok(r)
}

// --- netclass -----------------------------------------------------------

/// Index of the first list entry at or after `i`, or the length.
pub open spec fn first_list_idx(es: Seq<SExprModel>, i: int) -> int
    decreases es.len() - i,
{
    if 0 <= i < es.len() {
        if es[i] is List {
            i
        } else {
            first_list_idx(es, i + 1)
        }
    } else {
        es.len() as int
    }
}

pub open spec fn is_circuit_entry(e: SExprModel) -> bool {
    e is List && e->List_0.len() >= 1 && is_word(e->List_0[0], "circuit"@)
}

/// Whether a `circuit` entry carries a `(use_via ...)` list in second
/// position; only that position is examined.
pub open spec fn circuit_has_via(e: SExprModel) -> bool {
    &&& e->List_0.len() >= 2
    &&& e->List_0[1] is List
    &&& e->List_0[1]->List_0.len() >= 1
    &&& is_word(e->List_0[1]->List_0[0], "use_via"@)
}

pub open spec fn circuit_ok(e: SExprModel) -> bool {
    circuit_has_via(e) ==> e->List_0[1]->List_0.len() >= 2 && e->List_0[1]->List_0[1] is Atom
}

pub open spec fn circuit_via_of(e: SExprModel) -> Seq<char> {
    e->List_0[1]->List_0[1]->Atom_0
}

pub open spec fn is_rule_entry(e: SExprModel) -> bool {
    e is List && e->List_0.len() >= 1 && is_word(e->List_0[0], "rule"@)
}

pub open spec fn is_width_setting(r: SExprModel) -> bool {
    r is List && r->List_0.len() >= 1 && is_word(r->List_0[0], "width"@)
}

pub open spec fn is_clearance_setting(r: SExprModel) -> bool {
    r is List && r->List_0.len() >= 1 && is_word(r->List_0[0], "clearance"@)
}

pub open spec fn setting_value_ok(r: SExprModel) -> bool {
    r->List_0.len() >= 2 && r->List_0[1] is Atom && is_decimal(r->List_0[1]->Atom_0)
}

pub open spec fn setting_value_of(r: SExprModel) -> i64 {
    dec_value_micros(r->List_0[1]->Atom_0) as i64
}

/// Shape of one `rule` entry: its recognized settings carry numbers.
pub open spec fn rule_ok(l: Seq<SExprModel>) -> bool {
    forall|j: int|
        1 <= j < l.len() ==> ((is_width_setting(#[trigger] l[j]) || is_clearance_setting(l[j]))
            ==> setting_value_ok(l[j]))
}

/// Shape of one entry of a `class` scope; entries that are neither
/// `circuit` nor `rule` lists are ignored.
pub open spec fn netclass_item_ok(e: SExprModel) -> bool {
    &&& (is_circuit_entry(e) ==> circuit_ok(e))
    &&& (is_rule_entry(e) ==> rule_ok(e->List_0))
}

/// The via name set by entries from `i` on; the last `use_via` wins.
pub open spec fn nc_via_from(es: Seq<SExprModel>, i: int, cur: Seq<char>) -> Seq<char>
    decreases es.len() - i,
{
    if 0 <= i < es.len() {
        let cur2 = if is_circuit_entry(es[i]) && circuit_has_via(es[i]) {
            circuit_via_of(es[i])
        } else {
            cur
        };
        nc_via_from(es, i + 1, cur2)
    } else {
        cur
    }
}

/// The width set by the settings of one `rule` entry, last one wins.
pub open spec fn rule_width_fold(l: Seq<SExprModel>, j: int, cur: i64) -> i64
    decreases l.len() - j,
{
    if 0 <= j < l.len() {
        let cur2 = if is_width_setting(l[j]) {
            setting_value_of(l[j])
        } else {
            cur
        };
        rule_width_fold(l, j + 1, cur2)
    } else {
        cur
    }
}

pub open spec fn rule_clearance_fold(l: Seq<SExprModel>, j: int, cur: i64) -> i64
    decreases l.len() - j,
{
    if 0 <= j < l.len() {
        let cur2 = if is_clearance_setting(l[j]) {
            setting_value_of(l[j])
        } else {
            cur
        };
        rule_clearance_fold(l, j + 1, cur2)
    } else {
        cur
    }
}

/// The width set by entries from `i` on; the last setting wins.
pub open spec fn nc_width_from(es: Seq<SExprModel>, i: int, cur: i64) -> i64
    decreases es.len() - i,
{
    if 0 <= i < es.len() {
        let cur2 = if is_rule_entry(es[i]) {
            rule_width_fold(es[i]->List_0, 1, cur)
        } else {
            cur
        };
        nc_width_from(es, i + 1, cur2)
    } else {
        cur
    }
}

pub open spec fn nc_clearance_from(es: Seq<SExprModel>, i: int, cur: i64) -> i64
    decreases es.len() - i,
{
    if 0 <= i < es.len() {
        let cur2 = if is_rule_entry(es[i]) {
            rule_clearance_fold(es[i]->List_0, 1, cur)
        } else {
            cur
        };
        nc_clearance_from(es, i + 1, cur2)
    } else {
        cur
    }
}

/// Entries that are not lists change none of the class settings.
proof fn lemma_nc_folds_skip(es: Seq<SExprModel>, a: int, b: int, v: Seq<char>, w: i64, c: i64)
    requires
        0 <= a <= b <= es.len(),
        forall|j: int| a <= j < b ==> !((#[trigger] es[j]) is List),
    ensures
        nc_via_from(es, a, v) == nc_via_from(es, b, v),
        nc_width_from(es, a, w) == nc_width_from(es, b, w),
        nc_clearance_from(es, a, c) == nc_clearance_from(es, b, c),
    decreases b - a,
{
    if a < b {
        lemma_nc_folds_skip(es, a + 1, b, v, w, c);
    }
}

/// Shape of a well-formed `class` scope.
pub open spec fn netclass_ok(es: Seq<SExprModel>) -> bool {
    &&& es.len() >= 2
    &&& is_word(es[0], "class"@)
    &&& es[1] is Atom
    &&& forall|i: int| 2 <= i < es.len() ==> netclass_item_ok(#[trigger] es[i])
}

/// The netclass a well-formed `class` scope denotes: the member net
/// names are the atoms before the first list entry; via name, width and
/// clearance default to empty and zero when never set.
pub open spec fn netclass_of(es: Seq<SExprModel>) -> NetclassV {
    NetclassV {
        net_class_name: es[1]->Atom_0,
        net_names: Seq::new(
            (first_list_idx(es, 2) - 2) as nat,
            |j: int| es[j + 2]->Atom_0,
        ),
        via_name: nc_via_from(es, 2, Seq::empty()),
        width: nc_width_from(es, 2, 0),
        clearance: nc_clearance_from(es, 2, 0),
    }
}

/// Reads a `(class <name> <net>* (circuit ...)? (rule ...)?)` scope.
pub fn parse_netclass(s_expr: &Vec<SExpr>) -> (r: Result<Netclass, String>)
    ensures
        r is Ok <==> netclass_ok(models_of(s_expr@)),
        r is Ok ==> (r->Ok_0)@ == netclass_of(models_of(s_expr@)),
{
    let ghost es = models_of(s_expr@);
    if s_expr.len() == 0 {
        return Err(msg("Expected at least one item in the netclass scope"));
    }
    let first_item = match s_expr[0].as_atom() {
        Some(a) => a,
        None => {
            return Err(msg("Expected an atom as the first item in the netclass scope"));
        },
    };
    if !word_eq(first_item, "class") {
        return Err(msg_with("Expected 'class' as the first item, found: ", first_item));
    }
    if s_expr.len() < 2 {
        return Err(msg("Expected net class name as the second item"));
    }
    let net_class_name = match s_expr[1].as_atom() {
        Some(a) => a,
        None => {
            return Err(msg("Expected net class name to be an atom"));
        },
    };
    let n = s_expr.len();
    let mut net_names: Vec<String> = Vec::new();
    let mut current_pos: usize = 2;
    while current_pos < n && s_expr[current_pos].is_atom()
        invariant
            2 <= current_pos <= n == s_expr.len(),
            es == models_of(s_expr@),
            first_list_idx(es, 2) == first_list_idx(es, current_pos as int),
            forall|j: int| 2 <= j < current_pos ==> (#[trigger] es[j]) is Atom,
            net_names@.len() == current_pos - 2,
            forall|j: int|
                0 <= j < current_pos - 2 ==> (#[trigger] net_names@[j])@ == es[j + 2]->Atom_0,
        decreases n - current_pos,
    {
        let name = match s_expr[current_pos].as_atom() {
            Some(a) => a,
            None => {
                proof {
                    assert(false);
                }
                return Err(msg("Unexpected non-atom in net names"));
            },
        };
        net_names.push(name.clone());
        current_pos = current_pos + 1;
    }
    let ghost fli = first_list_idx(es, 2);
    proof {
        assert(fli == current_pos as int);
        lemma_nc_folds_skip(es, 2, current_pos as int, Seq::empty(), 0, 0);
    }
    let mut via_name = String::new();
    let mut width: i64 = 0;
    let mut clearance: i64 = 0;
    let mut i: usize = current_pos;
    while i < n
        invariant
            2 <= i <= n == s_expr.len(),
            es == models_of(s_expr@),
            forall|j: int| 2 <= j < i ==> netclass_item_ok(#[trigger] es[j]),
            nc_via_from(es, 2, Seq::empty()) == nc_via_from(es, i as int, via_name@),
            nc_width_from(es, 2, 0) == nc_width_from(es, i as int, width),
            nc_clearance_from(es, 2, 0) == nc_clearance_from(es, i as int, clearance),
        decreases n - i,
    {
        proof {
            lemma_keywords_distinct();
        }
        let item_list = match s_expr[i].as_list() {
            Some(l) => l,
            None => {
                i = i + 1;
                continue ;
            },
        };
        proof {
            assert(es[i as int] == SExprModel::List(models_of(item_list@)));
        }
        if item_list.len() == 0 {
            i = i + 1;
            continue ;
        }
        let kw = match item_list[0].as_atom() {
            Some(a) => a,
            None => {
                i = i + 1;
                continue ;
            },
        };
        proof {
            assert(models_of(item_list@)[0] == SExprModel::Atom(kw@));
        }
        if word_eq(kw, "circuit") {
            let ghost e_i = es[i as int];
            let mut head_is_use_via = false;
            if item_list.len() >= 2 {
                if let Some(use_via_list) = item_list[1].as_list() {
                    proof {
                        assert(models_of(item_list@)[1] == SExprModel::List(
                            models_of(use_via_list@),
                        ));
                    }
                    if use_via_list.len() >= 1 {
                        match use_via_list[0].as_atom() {
                            Some(h) => {
                                proof {
                                    assert(models_of(use_via_list@)[0] == SExprModel::Atom(h@));
                                }
                                if word_eq(h, "use_via") {
                                    head_is_use_via = true;
                                }
                            },
                            None => {
                                proof {
                                    assert(!(models_of(use_via_list@)[0] is Atom));
                                }
                            },
                        }
                    }
                    proof {
                        assert(head_is_use_via == circuit_has_via(e_i));
                    }
                    if head_is_use_via {
                        if use_via_list.len() < 2 {
                            proof {
                                assert(!circuit_ok(e_i));
                            }
                            return Err(msg("Missing via name in use_via"));
                        }
                        let v = match use_via_list[1].as_atom() {
                            Some(a) => a,
                            None => {
                                proof {
                                    assert(!(models_of(use_via_list@)[1] is Atom));
                                    assert(!circuit_ok(e_i));
                                }
                                return Err(msg("Via name must be an atom"));
                            },
                        };
                        proof {
                            assert(models_of(use_via_list@)[1] == SExprModel::Atom(v@));
                        }
                        via_name = v.clone();
                    }
                } else {
                    proof {
                        assert(!(models_of(item_list@)[1] is List));
                        assert(!circuit_has_via(e_i));
                    }
                }
            } else {
                proof {
                    assert(!circuit_has_via(e_i));
                }
            }
        } else if word_eq(kw, "rule") {
            let m = item_list.len();
            let ghost l = models_of(item_list@);
            let ghost w_enter: i64 = width;
            let ghost c_enter: i64 = clearance;
            let mut j: usize = 1;
            while j < m
                invariant
                    1 <= j <= m == item_list.len(),
                    l == models_of(item_list@),
                    es == models_of(s_expr@),
                    2 <= i < n == s_expr.len(),
                    es[i as int] == SExprModel::List(l),
                    is_rule_entry(es[i as int]),
                    rule_width_fold(l, 1, w_enter) == rule_width_fold(l, j as int, width),
                    rule_clearance_fold(l, 1, c_enter) == rule_clearance_fold(
                        l,
                        j as int,
                        clearance,
                    ),
                    forall|k: int|
                        1 <= k < j ==> ((is_width_setting(#[trigger] l[k])
                            || is_clearance_setting(l[k])) ==> setting_value_ok(l[k])),
                decreases m - j,
            {
                proof {
                    lemma_keywords_distinct();
                }
                let rule_list = match item_list[j].as_list() {
                    Some(rl) => rl,
                    None => {
                        j = j + 1;
                        continue ;
                    },
                };
                proof {
                    assert(l[j as int] == SExprModel::List(models_of(rule_list@)));
                }
                if rule_list.len() == 0 {
                    j = j + 1;
                    continue ;
                }
                let rkw = match rule_list[0].as_atom() {
                    Some(a) => a,
                    None => {
                        j = j + 1;
                        continue ;
                    },
                };
                proof {
                    assert(models_of(rule_list@)[0] == SExprModel::Atom(rkw@));
                }
                if word_eq(rkw, "width") {
                    proof {
                        assert(is_width_setting(l[j as int]));
                    }
                    if rule_list.len() < 2 {
                        proof {
                            assert(!setting_value_ok(l[j as int]));
                            assert(!netclass_item_ok(es[i as int]));
                        }
                        return Err(msg("Missing width value"));
                    }
                    let a = match rule_list[1].as_atom() {
                        Some(a) => a,
                        None => {
                            proof {
                                assert(!(models_of(rule_list@)[1] is Atom));
                                assert(!setting_value_ok(l[j as int]));
                                assert(!netclass_item_ok(es[i as int]));
                            }
                            return Err(msg("Width must be a number"));
                        },
                    };
                    width = match parse_decimal(a.as_str()) {
                        Ok(v) => v,
                        Err(_) => {
                            proof {
                                assert(models_of(rule_list@)[1] == SExprModel::Atom(a@));
                                assert(!setting_value_ok(l[j as int]));
                                assert(!netclass_item_ok(es[i as int]));
                            }
                            return Err(msg("Invalid width"));
                        },
                    };
                } else if word_eq(rkw, "clearance") {
                    proof {
                        assert(is_clearance_setting(l[j as int]));
                    }
                    if rule_list.len() < 2 {
                        proof {
                            assert(!setting_value_ok(l[j as int]));
                            assert(!netclass_item_ok(es[i as int]));
                        }
                        return Err(msg("Missing clearance value"));
                    }
                    let a = match rule_list[1].as_atom() {
                        Some(a) => a,
                        None => {
                            proof {
                                assert(!(models_of(rule_list@)[1] is Atom));
                                assert(!setting_value_ok(l[j as int]));
                                assert(!netclass_item_ok(es[i as int]));
                            }
                            return Err(msg("Clearance must be a number"));
                        },
                    };
                    clearance = match parse_decimal(a.as_str()) {
                        Ok(v) => v,
                        Err(_) => {
                            proof {
                                assert(models_of(rule_list@)[1] == SExprModel::Atom(a@));
                                assert(!setting_value_ok(l[j as int]));
                                assert(!netclass_item_ok(es[i as int]));
                            }
                            return Err(msg("Invalid clearance"));
                        },
                    };
                }
                j = j + 1;
            }
        }
        i = i + 1;
    }
    let r = Netclass {
        net_class_name: net_class_name.clone(),
        net_names,
        via_name,
        width,
        clearance,
    };
    proof {
        assert(r@.net_names =~= netclass_of(es).net_names);
    }
    Ok(r)
}

// --- network ------------------------------------------------------------

pub open spec fn is_net_item(e: SExprModel) -> bool {
    e is List && e->List_0.len() >= 1 && is_word(e->List_0[0], "net"@)
}

pub open spec fn is_class_item(e: SExprModel) -> bool {
    e is List && e->List_0.len() >= 1 && is_word(e->List_0[0], "class"@)
}

/// Shape of one entry of a `network` scope.
pub open spec fn network_item_ok(e: SExprModel) -> bool {
    &&& e is List
    &&& e->List_0.len() >= 1
    &&& e->List_0[0] is Atom
    &&& {
        let kw = e->List_0[0]->Atom_0;
        if kw == "net"@ {
            net_ok(e->List_0)
        } else if kw == "class"@ {
            netclass_ok(e->List_0)
        } else {
            false
        }
    }
}

/// The nets of a `network` scope from entry `i` on, in order; a net
/// listed twice stays twice.
pub open spec fn network_nets(es: Seq<SExprModel>, i: int) -> Seq<NetV>
    decreases es.len() - i,
{
    if 0 <= i < es.len() {
        let rest = network_nets(es, i + 1);
        if is_net_item(es[i]) {
            seq![net_of(es[i]->List_0)] + rest
        } else {
            rest
        }
    } else {
        Seq::empty()
    }
}

/// The netclasses of a `network` scope from entry `i` on, added to
/// `acc`; a later class with the same name replaces the earlier one.
pub open spec fn network_netclasses_from(
    es: Seq<SExprModel>,
    i: int,
    acc: Seq<NetclassV>,
) -> Seq<NetclassV>
    decreases es.len() - i,
{
    if 0 <= i < es.len() {
        let acc2 = if is_class_item(es[i]) {
            crate::dsn_struct::upsert_netclass_v(acc, netclass_of(es[i]->List_0))
        } else {
            acc
        };
        network_netclasses_from(es, i + 1, acc2)
    } else {
        acc
    }
}

/// Shape of a well-formed `network` scope.
pub open spec fn network_ok(es: Seq<SExprModel>) -> bool {
    &&& es.len() >= 1
    &&& is_word(es[0], "network"@)
    &&& forall|i: int| 1 <= i < es.len() ==> network_item_ok(#[trigger] es[i])
}

/// The network a well-formed `network` scope denotes.
pub open spec fn network_of(es: Seq<SExprModel>) -> NetworkV {
    NetworkV {
        nets: network_nets(es, 1),
        netclasses: network_netclasses_from(es, 1, Seq::empty()),
    }
}

/// Reads a `(network ...)` scope: its nets in order and its netclasses
/// keyed by name.
pub fn parse_network(s_expr: &Vec<SExpr>) -> (r: Result<Network, String>)
    ensures
        r is Ok <==> network_ok(models_of(s_expr@)),
        r is Ok ==> (r->Ok_0)@ == network_of(models_of(s_expr@)),
{
    let ghost es = models_of(s_expr@);
    if s_expr.len() == 0 {
        return Err(msg("Expected at least one item in the network scope"));
    }
    let first_item = match s_expr[0].as_atom() {
        Some(a) => a,
        None => {
            return Err(msg("Expected an atom as the first item in the network scope"));
        },
    };
    if !word_eq(first_item, "network") {
        return Err(msg_with("Expected 'network' as the first item, found: ", first_item));
    }
    let n = s_expr.len();
    let mut network = Network { nets: Vec::new(), netclasses: Vec::new() };
    proof {
        assert(crate::dsn_struct::nets_v(network.nets@) =~= Seq::<NetV>::empty());
        assert(crate::dsn_struct::netclasses_v(network.netclasses@)
            =~= Seq::<NetclassV>::empty());
    }
    let mut i: usize = 1;
    while i < n
        invariant
            1 <= i <= n == s_expr.len(),
            es == models_of(s_expr@),
            forall|j: int| 1 <= j < i ==> network_item_ok(#[trigger] es[j]),
            network_nets(es, 1) == crate::dsn_struct::nets_v(network.nets@) + network_nets(
                es,
                i as int,
            ),
            network_netclasses_from(es, 1, Seq::empty()) == network_netclasses_from(
                es,
                i as int,
                crate::dsn_struct::netclasses_v(network.netclasses@),
            ),
        decreases n - i,
    {
        proof {
            lemma_keywords_distinct();
        }
        let expr_list = match s_expr[i].as_list() {
            Some(l) => l,
            None => {
                proof {
                    assert(!(es[i as int] is List));
                }
                return Err(msg("Expected a list in the network scope"));
            },
        };
        if expr_list.len() == 0 {
            return Err(msg("Expected at least one item in the network item"));
        }
        let kw = match expr_list[0].as_atom() {
            Some(a) => a,
            None => {
                return Err(msg("Expected an atom as the first item in the network item"));
            },
        };
        proof {
            assert(es[i as int] == SExprModel::List(models_of(expr_list@)));
            assert(models_of(expr_list@)[0] == SExprModel::Atom(kw@));
        }
        let ghost nv = crate::dsn_struct::nets_v(network.nets@);
        if word_eq(kw, "net") {
            let net = parse_net(expr_list)?;
            network.nets.push(net);
            proof {
                assert(crate::dsn_struct::nets_v(network.nets@) =~= nv + seq![net@]);
                assert(nv + (seq![net@] + network_nets(es, i + 1)) =~= (nv + seq![net@])
                    + network_nets(es, i + 1));
            }
        } else if word_eq(kw, "class") {
            let netclass = parse_netclass(expr_list)?;
            network.upsert_netclass(netclass);
        } else {
            return Err(msg_with("Unknown network item: ", kw));
        }
        i = i + 1;
    }
    proof {
        assert(crate::dsn_struct::nets_v(network.nets@) + Seq::<NetV>::empty()
            =~= crate::dsn_struct::nets_v(network.nets@));
    }
    Ok(network)
}

// --- top level ----------------------------------------------------------

/// Whether `e` is a list entry opening the section named `kw`.
pub open spec fn is_top_section(e: SExprModel, kw: Seq<char>) -> bool {
    e is List && e->List_0.len() >= 1 && is_word(e->List_0[0], kw)
}

/// Shape of a `resolution` entry: the keyword, a unit atom, a number.
pub open spec fn resolution_item_ok(l: Seq<SExprModel>) -> bool {
    &&& l.len() >= 3
    &&& l[1] is Atom
    &&& l[2] is Atom && is_decimal(l[2]->Atom_0)
}

pub open spec fn resolution_of(l: Seq<SExprModel>) -> ResolutionV {
    ResolutionV { unit: l[1]->Atom_0, value: dec_value_micros(l[2]->Atom_0) as i64 }
}

/// The top-level keywords the walker recognizes.
pub open spec fn known_top_kw(k: Seq<char>) -> bool {
    ||| k == "parser"@
    ||| k == "resolution"@
    ||| k == "unit"@
    ||| k == "structure"@
    ||| k == "placement"@
    ||| k == "library"@
    ||| k == "network"@
    ||| k == "wiring"@
}

/// A list entry whose leading atom is no recognized keyword.
pub open spec fn is_unknown_top_item(e: SExprModel) -> bool {
    &&& e is List
    &&& e->List_0.len() >= 1
    &&& e->List_0[0] is Atom
    &&& !known_top_kw(e->List_0[0]->Atom_0)
}

/// Shape of one top-level entry; bare atoms are skipped.
pub open spec fn top_item_ok(e: SExprModel) -> bool {
    e is Atom || {
        &&& e->List_0.len() >= 1
        &&& e->List_0[0] is Atom
        &&& {
            let kw = e->List_0[0]->Atom_0;
            if kw == "parser"@ || kw == "unit"@ || kw == "wiring"@ {
                true
            } else if kw == "resolution"@ {
                resolution_item_ok(e->List_0)
            } else if kw == "structure"@ {
                structure_ok(e->List_0)
            } else if kw == "placement"@ {
                placement_ok(e->List_0)
            } else if kw == "library"@ {
                library_ok(e->List_0)
            } else if kw == "network"@ {
                network_ok(e->List_0)
            } else {
                false
            }
        }
    }
}

/// The resolution set by entries from `i` on; the last one wins.
pub open spec fn top_resolution_from(
    es: Seq<SExprModel>,
    i: int,
    cur: Option<ResolutionV>,
) -> Option<ResolutionV>
    decreases es.len() - i,
{
    if 0 <= i < es.len() {
        let cur2 = if is_top_section(es[i], "resolution"@) {
            Some(resolution_of(es[i]->List_0))
        } else {
            cur
        };
        top_resolution_from(es, i + 1, cur2)
    } else {
        cur
    }
}

pub open spec fn top_structure_from(
    es: Seq<SExprModel>,
    i: int,
    cur: Option<StructureV>,
) -> Option<StructureV>
    decreases es.len() - i,
{
    if 0 <= i < es.len() {
        let cur2 = if is_top_section(es[i], "structure"@) {
            Some(structure_of(es[i]->List_0))
        } else {
            cur
        };
        top_structure_from(es, i + 1, cur2)
    } else {
        cur
    }
}

pub open spec fn top_placement_from(
    es: Seq<SExprModel>,
    i: int,
    cur: Option<PlacementV>,
) -> Option<PlacementV>
    decreases es.len() - i,
{
    if 0 <= i < es.len() {
        let cur2 = if is_top_section(es[i], "placement"@) {
            Some(placement_of(es[i]->List_0))
        } else {
            cur
        };
        top_placement_from(es, i + 1, cur2)
    } else {
        cur
    }
}

pub open spec fn top_library_from(
    es: Seq<SExprModel>,
    i: int,
    cur: Option<LibraryV>,
) -> Option<LibraryV>
    decreases es.len() - i,
{
    if 0 <= i < es.len() {
        let cur2 = if is_top_section(es[i], "library"@) {
            Some(library_of(es[i]->List_0))
        } else {
            cur
        };
        top_library_from(es, i + 1, cur2)
    } else {
        cur
    }
}

pub open spec fn top_network_from(
    es: Seq<SExprModel>,
    i: int,
    cur: Option<NetworkV>,
) -> Option<NetworkV>
    decreases es.len() - i,
{
    if 0 <= i < es.len() {
        let cur2 = if is_top_section(es[i], "network"@) {
            Some(network_of(es[i]->List_0))
        } else {
            cur
        };
        top_network_from(es, i + 1, cur2)
    } else {
        cur
    }
}

/// Whether a whole document tree denotes a design model: a list of
/// well-formed entries giving all five required sections.
pub open spec fn dsn_ok(top: SExprModel) -> bool {
    &&& top is List
    &&& {
        let es = top->List_0;
        &&& forall|i: int| 0 <= i < es.len() ==> top_item_ok(#[trigger] es[i])
        &&& top_resolution_from(es, 0, None) is Some
        &&& top_structure_from(es, 0, None) is Some
        &&& top_placement_from(es, 0, None) is Some
        &&& top_library_from(es, 0, None) is Some
        &&& top_network_from(es, 0, None) is Some
    }
}

/// The design model a well-formed document denotes; for a section given
/// twice the last entry wins.
pub open spec fn dsn_of(top: SExprModel) -> DsnStructV {
    let es = top->List_0;
    DsnStructV {
        resolution: top_resolution_from(es, 0, None).unwrap(),
        structure: top_structure_from(es, 0, None).unwrap(),
        placement: top_placement_from(es, 0, None).unwrap(),
        library: top_library_from(es, 0, None).unwrap(),
        network: top_network_from(es, 0, None).unwrap(),
    }
}

pub open spec fn opt_resolution_v(x: Option<Resolution>) -> Option<ResolutionV> {
    match x {
        Some(v) => Some(v@),
        None => None,
    }
}

pub open spec fn opt_structure_v(x: Option<Structure>) -> Option<StructureV> {
    match x {
        Some(v) => Some(v@),
        None => None,
    }
}

pub open spec fn opt_placement_v(x: Option<Placement>) -> Option<PlacementV> {
    match x {
        Some(v) => Some(v@),
        None => None,
    }
}

pub open spec fn opt_library_v(x: Option<Library>) -> Option<LibraryV> {
    match x {
        Some(v) => Some(v@),
        None => None,
    }
}

pub open spec fn opt_network_v(x: Option<Network>) -> Option<NetworkV> {
    match x {
        Some(v) => Some(v@),
        None => None,
    }
}

/// Walks a whole document tree into the design model.  When a section
/// appears more than once, the last entry wins, as it would under map
/// insertion.
///
/// Succeeds exactly on trees accepted by [`dsn_ok`]; an unknown
/// top-level keyword, reached with every entry before it well-formed,
/// fails with an error naming that keyword.
pub fn parse_s_expr_to_struct(s_expr: &SExpr) -> (r: Result<DsnStruct, String>)
    ensures
        r is Ok <==> dsn_ok(s_expr.model()),
        r is Ok ==> (r->Ok_0)@ == dsn_of(s_expr.model()),
        r is Ok ==> crate::dsn_struct::dsn_bounded((r->Ok_0)@),
        forall|k: int|
            {
                &&& s_expr.model() is List
                &&& 0 <= k < s_expr.model()->List_0.len()
                &&& (forall|j: int|
                    0 <= j < k ==> top_item_ok(#[trigger] s_expr.model()->List_0[j]))
                &&& #[trigger] is_unknown_top_item(s_expr.model()->List_0[k])
            } ==> r is Err && (r->Err_0)@ == "Unknown S-expression type: "@
                + s_expr.model()->List_0[k]->List_0[0]->Atom_0,
{
    let ghost top = s_expr.model();
    let expr_list = match s_expr.as_list() {
        Some(l) => l,
        None => {
            return Err(msg("Expected a list at the top level"));
        },
    };
    let ghost es = models_of(expr_list@);
    proof {
        assert(top == SExprModel::List(es));
    }
    let n = expr_list.len();
    let mut resolution: Option<Resolution> = None;
    let mut structure: Option<Structure> = None;
    let mut placement: Option<Placement> = None;
    let mut library: Option<Library> = None;
    let mut network: Option<Network> = None;
    let mut i: usize = 0;
    while i < n
        invariant
            0 <= i <= n == expr_list.len(),
            es == models_of(expr_list@),
            top == SExprModel::List(es),
            top == s_expr.model(),
            forall|j: int| 0 <= j < i ==> top_item_ok(#[trigger] es[j]),
            top_resolution_from(es, 0, None) == top_resolution_from(
                es,
                i as int,
                opt_resolution_v(resolution),
            ),
            top_structure_from(es, 0, None) == top_structure_from(
                es,
                i as int,
                opt_structure_v(structure),
            ),
            top_placement_from(es, 0, None) == top_placement_from(
                es,
                i as int,
                opt_placement_v(placement),
            ),
            top_library_from(es, 0, None) == top_library_from(
                es,
                i as int,
                opt_library_v(library),
            ),
            top_network_from(es, 0, None) == top_network_from(
                es,
                i as int,
                opt_network_v(network),
            ),
        decreases n - i,
    {
        proof {
            lemma_keywords_distinct();
        }
        let expr_list2 = match expr_list[i].as_list() {
            Some(l) => l,
            None => {
                i = i + 1;
                continue ;
            },
        };
        proof {
            assert(es[i as int] == SExprModel::List(models_of(expr_list2@)));
        }
        if expr_list2.len() == 0 {
            return Err(msg("Expected at least one item in the outermost scope"));
        }
        let kw = match expr_list2[0].as_atom() {
            Some(a) => a,
            None => {
                return Err(msg("Expected an atom as the first item in the outermost scope"));
            },
        };
        proof {
            assert(models_of(expr_list2@)[0] == SExprModel::Atom(kw@));
        }
        if word_eq(kw, "parser") || word_eq(kw, "unit") || word_eq(kw, "wiring") {
        } else if word_eq(kw, "resolution") {
            let ghost l = models_of(expr_list2@);
            if expr_list2.len() < 2 {
                return Err(msg("Expected a second item in the resolution scope"));
            }
            let unit = match expr_list2[1].as_atom() {
                Some(a) => a,
                None => {
                    return Err(msg(
                        "Expected an atom as the second item in the resolution scope",
                    ));
                },
            };
            if expr_list2.len() < 3 {
                return Err(msg("Expected a third item in the resolution scope"));
            }
            let value_atom = match expr_list2[2].as_atom() {
                Some(a) => a,
                None => {
                    return Err(msg(
                        "Expected an atom as the third item in the resolution scope",
                    ));
                },
            };
            let value = match parse_decimal(value_atom.as_str()) {
                Ok(v) => v,
                Err(_) => {
                    proof {
                        assert(l[2] == SExprModel::Atom(value_atom@));
                    }
                    return Err(msg("Failed to parse resolution value"));
                },
            };
            resolution = Some(Resolution { unit: unit.clone(), value });
        } else if word_eq(kw, "structure") {
            let parsed = parse_structure(expr_list2)?;
            structure = Some(parsed);
        } else if word_eq(kw, "placement") {
            let parsed = parse_placement(expr_list2)?;
            placement = Some(parsed);
        } else if word_eq(kw, "library") {
            let parsed = parse_library(expr_list2)?;
            library = Some(parsed);
        } else if word_eq(kw, "network") {
            let parsed = parse_network(expr_list2)?;
            network = Some(parsed);
        } else {
            proof {
                assert(is_unknown_top_item(es[i as int]));
                assert(!top_item_ok(es[i as int]));
            }
            return Err(msg_with("Unknown S-expression type: ", kw));
        }
        i = i + 1;
    }
    let resolution = match resolution {
        Some(v) => v,
        None => {
            return Err(msg("Missing required field: resolution"));
        },
    };
    let structure = match structure {
        Some(v) => v,
        None => {
            return Err(msg("Missing required field: structure"));
        },
    };
    let placement = match placement {
        Some(v) => v,
        None => {
            return Err(msg("Missing required field: placement"));
        },
    };
    let library = match library {
        Some(v) => v,
        None => {
            return Err(msg("Missing required field: library"));
        },
    };
    let network = match network {
        Some(v) => v,
        None => {
            return Err(msg("Missing required field: network"));
        },
    };
    proof {
        lemma_built_model_in_range(top);
    }
    Ok(DsnStruct { resolution, structure, placement, library, network })
}

// --- the builder stays in range -----------------------------------------

/// A well-formed boundary run denotes only in-range points.
proof fn lemma_boundary_of_bounded(es: Seq<SExprModel>)
    requires
        boundary_ok(es),
    ensures
        forall|j: int|
            0 <= j < boundary_of(es).len() ==> crate::dsn_struct::point_in_range(
                #[trigger] boundary_of(es)[j],
            ),
{
    let q = es[1]->List_0.skip(3);
    assert forall|j: int| 0 <= j < boundary_of(es).len() implies crate::dsn_struct::point_in_range(
        #[trigger] boundary_of(es)[j],
    ) by {
        assert(q[2 * j] is Atom && is_decimal(q[2 * j]->Atom_0));
        assert(q[2 * j + 1] is Atom && is_decimal(q[2 * j + 1]->Atom_0));
        crate::numeric::lemma_dec_value_bounded(q[2 * j]->Atom_0);
        crate::numeric::lemma_dec_value_bounded(q[2 * j + 1]->Atom_0);
    }
}

/// The boundary of a well-formed structure scope is in range.
proof fn lemma_structure_boundary_bounded(es: Seq<SExprModel>, i: int)
    requires
        forall|j: int| 1 <= j < es.len() ==> structure_item_ok(#[trigger] es[j]),
        1 <= i,
        structure_boundary(es, i) is Some,
    ensures
        forall|j: int|
            0 <= j < structure_boundary(es, i).unwrap().len()
                ==> crate::dsn_struct::point_in_range(
                #[trigger] structure_boundary(es, i).unwrap()[j],
            ),
    decreases es.len() - i,
{
    lemma_keywords_distinct();
    if 0 <= i < es.len() {
        if structure_boundary(es, i + 1) is Some {
            lemma_structure_boundary_bounded(es, i + 1);
        } else {
            assert(is_boundary_item(es[i]));
            assert(structure_item_ok(es[i]));
            assert(boundary_ok(es[i]->List_0));
            lemma_boundary_of_bounded(es[i]->List_0);
        }
    }
}

/// A well-formed placement scope denotes only in-range instances.
proof fn lemma_placement_of_bounded(es: Seq<SExprModel>)
    requires
        placement_ok(es),
    ensures
        forall|c: int, j: int|
            0 <= c < placement_of(es).components.len() && 0 <= j < placement_of(
                es,
            ).components[c].instances.len() ==> crate::dsn_struct::point_in_range(
                (#[trigger] placement_of(es).components[c].instances[j]).position,
            ) && crate::dsn_struct::micros_in_range(
                placement_of(es).components[c].instances[j].rotation,
            ),
{
    let pv = placement_of(es);
    assert forall|c: int, j: int|
        0 <= c < pv.components.len() && 0 <= j
            < pv.components[c].instances.len() implies crate::dsn_struct::point_in_range(
        (#[trigger] pv.components[c].instances[j]).position,
    ) && crate::dsn_struct::micros_in_range(pv.components[c].instances[j].rotation) by {
        assert(es[c + 1] is List && component_ok(es[c + 1]->List_0));
        let l = es[c + 1]->List_0;
        assert(l[j + 2] is List && place_ok(l[j + 2]->List_0));
        let pl = l[j + 2]->List_0;
        crate::numeric::lemma_dec_value_bounded(pl[2]->Atom_0);
        crate::numeric::lemma_dec_value_bounded(pl[3]->Atom_0);
        crate::numeric::lemma_dec_value_bounded(pl[5]->Atom_0);
        assert(pv.components[c].instances[j] == place_of(pl));
    }
}

/// Whether every pin of the run sits at an in-range position.
spec fn pins_in_range(pins: Seq<crate::dsn_struct::PinV>) -> bool {
    forall|j: int|
        0 <= j < pins.len() ==> crate::dsn_struct::point_in_range(
            (#[trigger] pins[j]).position,
        )
}

/// Pin folding keeps positions in range.
proof fn lemma_image_pins_bounded(es: Seq<SExprModel>, i: int, acc: Seq<crate::dsn_struct::PinV>)
    requires
        forall|j: int| 2 <= j < es.len() ==> image_item_ok(#[trigger] es[j]),
        2 <= i,
        pins_in_range(acc),
    ensures
        pins_in_range(image_pins_from(es, i, acc)),
    decreases es.len() - i,
{
    lemma_keywords_distinct();
    if 0 <= i < es.len() {
        if is_pin_item(es[i]) {
            assert(image_item_ok(es[i]));
            assert(pin_ok(es[i]->List_0));
            let l = es[i]->List_0;
            crate::numeric::lemma_dec_value_bounded(l[3]->Atom_0);
            crate::numeric::lemma_dec_value_bounded(l[4]->Atom_0);
            let p = pin_of(l);
            crate::dsn_struct::lemma_pin_index_bounds(acc, p.pin_number, 0);
            let up = crate::dsn_struct::upsert_pin_v(acc, p);
            assert(pins_in_range(up)) by {
                assert forall|j: int|
                    0 <= j < up.len() implies crate::dsn_struct::point_in_range(
                    (#[trigger] up[j]).position,
                ) by {
                    if up[j] != p {
                        assert(up[j] == acc[j]);
                    }
                }
            }
            lemma_image_pins_bounded(es, i + 1, up);
        } else {
            lemma_image_pins_bounded(es, i + 1, acc);
        }
    }
}

/// Whether a pad stack's rectangle, if any, is in range.
spec fn stack_in_range(p: crate::dsn_struct::PadStackV) -> bool {
    match p.shape {
        ShapeV::Rect { x_min, y_min, x_max, y_max } => crate::dsn_struct::micros_in_range(x_min)
            && crate::dsn_struct::micros_in_range(y_min) && crate::dsn_struct::micros_in_range(
            x_max,
        ) && crate::dsn_struct::micros_in_range(y_max),
        _ => true,
    }
}

/// A well-formed padstack scope denotes an in-range pad stack.
proof fn lemma_padstack_of_bounded(es: Seq<SExprModel>)
    requires
        padstack_ok(es),
    ensures
        stack_in_range(padstack_of(es)),
{
    lemma_keywords_distinct();
    let inner = es[first_shape_idx(es, 2)]->List_0[1]->List_0;
    if inner[0]->Atom_0 == "rect"@ {
        crate::numeric::lemma_dec_value_bounded(inner[2]->Atom_0);
        crate::numeric::lemma_dec_value_bounded(inner[3]->Atom_0);
        crate::numeric::lemma_dec_value_bounded(inner[4]->Atom_0);
        crate::numeric::lemma_dec_value_bounded(inner[5]->Atom_0);
    }
}

/// Image folding keeps every image's pins in range.
proof fn lemma_library_images_bounded(
    es: Seq<SExprModel>,
    i: int,
    acc: Seq<crate::dsn_struct::ImageV>,
)
    requires
        forall|j: int| 1 <= j < es.len() ==> library_item_ok(#[trigger] es[j]),
        1 <= i,
        forall|x: int| 0 <= x < acc.len() ==> pins_in_range((#[trigger] acc[x]).pins),
    ensures
        forall|x: int|
            0 <= x < library_images_from(es, i, acc).len() ==> pins_in_range(
                (#[trigger] library_images_from(es, i, acc)[x]).pins,
            ),
    decreases es.len() - i,
{
    lemma_keywords_distinct();
    if 0 <= i < es.len() {
        if is_image_item(es[i]) {
            assert(library_item_ok(es[i]));
            assert(image_ok(es[i]->List_0));
            lemma_image_pins_bounded(es[i]->List_0, 2, Seq::empty());
            let img = image_of(es[i]->List_0);
            crate::dsn_struct::lemma_image_index_bounds(acc, img.name, 0);
            let up = crate::dsn_struct::upsert_image_v(acc, img);
            assert(forall|x: int|
                0 <= x < up.len() ==> pins_in_range((#[trigger] up[x]).pins)) by {
                assert forall|x: int| 0 <= x < up.len() implies pins_in_range(
                    (#[trigger] up[x]).pins,
                ) by {
                    if up[x] != img {
                        assert(up[x] == acc[x]);
                    }
                }
            }
            lemma_library_images_bounded(es, i + 1, up);
            assert forall|x: int|
                0 <= x < library_images_from(es, i, acc).len() implies pins_in_range(
                (#[trigger] library_images_from(es, i, acc)[x]).pins,
            ) by {
                assert(library_images_from(es, i, acc) == library_images_from(es, i + 1, up));
                assert(pins_in_range(library_images_from(es, i + 1, up)[x].pins));
            }
        } else {
            lemma_library_images_bounded(es, i + 1, acc);
            assert forall|x: int|
                0 <= x < library_images_from(es, i, acc).len() implies pins_in_range(
                (#[trigger] library_images_from(es, i, acc)[x]).pins,
            ) by {
                assert(library_images_from(es, i, acc) == library_images_from(es, i + 1, acc));
                assert(pins_in_range(library_images_from(es, i + 1, acc)[x].pins));
            }
        }
    }
}

/// Pad-stack folding keeps every rectangle in range.
proof fn lemma_library_stacks_bounded(
    es: Seq<SExprModel>,
    i: int,
    acc: Seq<crate::dsn_struct::PadStackV>,
)
    requires
        forall|j: int| 1 <= j < es.len() ==> library_item_ok(#[trigger] es[j]),
        1 <= i,
        forall|x: int| 0 <= x < acc.len() ==> stack_in_range(#[trigger] acc[x]),
    ensures
        forall|x: int|
            0 <= x < library_pad_stacks_from(es, i, acc).len() ==> stack_in_range(
                #[trigger] library_pad_stacks_from(es, i, acc)[x],
            ),
    decreases es.len() - i,
{
    lemma_keywords_distinct();
    if 0 <= i < es.len() {
        if is_padstack_item(es[i]) {
            assert(library_item_ok(es[i]));
            assert(padstack_ok(es[i]->List_0));
            lemma_padstack_of_bounded(es[i]->List_0);
            let ps = padstack_of(es[i]->List_0);
            crate::dsn_struct::lemma_pad_stack_index_bounds(acc, ps.name, 0);
            let up = crate::dsn_struct::upsert_pad_stack_v(acc, ps);
            assert(forall|x: int| 0 <= x < up.len() ==> stack_in_range(#[trigger] up[x]))
                by {
                assert forall|x: int| 0 <= x < up.len() implies stack_in_range(
                    #[trigger] up[x],
                ) by {
                    if up[x] != ps {
                        assert(up[x] == acc[x]);
                    }
                }
            }
            lemma_library_stacks_bounded(es, i + 1, up);
            assert forall|x: int|
                0 <= x < library_pad_stacks_from(es, i, acc).len() implies stack_in_range(
                #[trigger] library_pad_stacks_from(es, i, acc)[x],
            ) by {
                assert(library_pad_stacks_from(es, i, acc) == library_pad_stacks_from(
                    es,
                    i + 1,
                    up,
                ));
                assert(stack_in_range(library_pad_stacks_from(es, i + 1, up)[x]));
            }
        } else {
            lemma_library_stacks_bounded(es, i + 1, acc);
            assert forall|x: int|
                0 <= x < library_pad_stacks_from(es, i, acc).len() implies stack_in_range(
                #[trigger] library_pad_stacks_from(es, i, acc)[x],
            ) by {
                assert(library_pad_stacks_from(es, i, acc) == library_pad_stacks_from(
                    es,
                    i + 1,
                    acc,
                ));
                assert(stack_in_range(library_pad_stacks_from(es, i + 1, acc)[x]));
            }
        }
    }
}

/// The structure section a top-level fold settles on is in range.
proof fn lemma_top_structure_bounded(es: Seq<SExprModel>, i: int, cur: Option<StructureV>)
    requires
        forall|j: int| 0 <= j < es.len() ==> top_item_ok(#[trigger] es[j]),
        0 <= i,
        cur is Some ==> forall|j: int|
            0 <= j < cur.unwrap().boundary.len() ==> crate::dsn_struct::point_in_range(
                #[trigger] cur.unwrap().boundary[j],
            ),
        top_structure_from(es, i, cur) is Some,
    ensures
        forall|j: int|
            0 <= j < top_structure_from(es, i, cur).unwrap().boundary.len()
                ==> crate::dsn_struct::point_in_range(
                #[trigger] top_structure_from(es, i, cur).unwrap().boundary[j],
            ),
    decreases es.len() - i,
{
    lemma_keywords_distinct();
    if 0 <= i < es.len() {
        if is_top_section(es[i], "structure"@) {
            assert(top_item_ok(es[i]));
            assert(structure_ok(es[i]->List_0));
            lemma_structure_boundary_bounded(es[i]->List_0, 1);
            lemma_top_structure_bounded(es, i + 1, Some(structure_of(es[i]->List_0)));
        } else {
            lemma_top_structure_bounded(es, i + 1, cur);
        }
    }
}

/// The placement section a top-level fold settles on is in range.
proof fn lemma_top_placement_bounded(es: Seq<SExprModel>, i: int, cur: Option<PlacementV>)
    requires
        forall|j: int| 0 <= j < es.len() ==> top_item_ok(#[trigger] es[j]),
        0 <= i,
        cur is Some ==> forall|c: int, j: int|
            0 <= c < cur.unwrap().components.len() && 0 <= j < cur.unwrap(
            ).components[c].instances.len() ==> crate::dsn_struct::point_in_range(
                (#[trigger] cur.unwrap().components[c].instances[j]).position,
            ) && crate::dsn_struct::micros_in_range(
                cur.unwrap().components[c].instances[j].rotation,
            ),
        top_placement_from(es, i, cur) is Some,
    ensures
        forall|c: int, j: int|
            0 <= c < top_placement_from(es, i, cur).unwrap().components.len() && 0 <= j
                < top_placement_from(es, i, cur).unwrap().components[c].instances.len()
                ==> crate::dsn_struct::point_in_range(
                (#[trigger] top_placement_from(es, i, cur).unwrap(
                ).components[c].instances[j]).position,
            ) && crate::dsn_struct::micros_in_range(
                top_placement_from(es, i, cur).unwrap().components[c].instances[j].rotation,
            ),
    decreases es.len() - i,
{
    lemma_keywords_distinct();
    if 0 <= i < es.len() {
        if is_top_section(es[i], "placement"@) {
            assert(top_item_ok(es[i]));
            assert(placement_ok(es[i]->List_0));
            lemma_placement_of_bounded(es[i]->List_0);
            lemma_top_placement_bounded(es, i + 1, Some(placement_of(es[i]->List_0)));
        } else {
            lemma_top_placement_bounded(es, i + 1, cur);
        }
    }
}

/// The library section a top-level fold settles on is in range.
proof fn lemma_top_library_bounded(es: Seq<SExprModel>, i: int, cur: Option<LibraryV>)
    requires
        forall|j: int| 0 <= j < es.len() ==> top_item_ok(#[trigger] es[j]),
        0 <= i,
        cur is Some ==> (forall|x: int|
            0 <= x < cur.unwrap().images.len() ==> pins_in_range(
                (#[trigger] cur.unwrap().images[x]).pins,
            )) && (forall|x: int|
            0 <= x < cur.unwrap().pad_stacks.len() ==> stack_in_range(
                #[trigger] cur.unwrap().pad_stacks[x],
            )),
        top_library_from(es, i, cur) is Some,
    ensures
        forall|x: int|
            0 <= x < top_library_from(es, i, cur).unwrap().images.len() ==> pins_in_range(
                (#[trigger] top_library_from(es, i, cur).unwrap().images[x]).pins,
            ),
        forall|x: int|
            0 <= x < top_library_from(es, i, cur).unwrap().pad_stacks.len()
                ==> stack_in_range(
                #[trigger] top_library_from(es, i, cur).unwrap().pad_stacks[x],
            ),
    decreases es.len() - i,
{
    lemma_keywords_distinct();
    if 0 <= i < es.len() {
        if is_top_section(es[i], "library"@) {
            assert(top_item_ok(es[i]));
            assert(library_ok(es[i]->List_0));
            lemma_library_images_bounded(es[i]->List_0, 1, Seq::empty());
            lemma_library_stacks_bounded(es[i]->List_0, 1, Seq::empty());
            lemma_top_library_bounded(es, i + 1, Some(library_of(es[i]->List_0)));
        } else {
            lemma_top_library_bounded(es, i + 1, cur);
        }
    }
}

/// Whatever the builder accepts is an in-range design model: the
/// geometric stages' coordinate check never rejects a built model.
pub proof fn lemma_built_model_in_range(top: SExprModel)
    requires
        dsn_ok(top),
    ensures
        crate::dsn_struct::dsn_bounded(dsn_of(top)),
{
    let es = top->List_0;
    lemma_top_structure_bounded(es, 0, None);
    lemma_top_placement_bounded(es, 0, None);
    lemma_top_library_bounded(es, 0, None);
}

} // verus!
