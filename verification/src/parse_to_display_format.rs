//! The display-oriented intermediate form: per-net pad lists with their
//! netclass defaults, plus the caller-supplied override layer.

use vstd::prelude::*;

use crate::pad::{pads_v, Pad, PadName, PadV};
use crate::pcb_problem::{NetClassName, NetName};
use crate::shapes::{Line, Polygon};

verus! {

/// One net ready for display: its pads and its netclass defaults.
pub struct DisplayNetInfo {
    pub net_name: NetName,
    pub pads: Vec<Pad>,
    pub net_class_name: NetClassName,
    pub default_trace_width: i64,
    pub default_trace_clearance: i64,
    pub via_diameter: i64,
}

pub struct DisplayNetInfoV {
    pub net_name: Seq<char>,
    pub pads: Seq<PadV>,
    pub net_class_name: Seq<char>,
    pub default_trace_width: i64,
    pub default_trace_clearance: i64,
    pub via_diameter: i64,
}

impl View for DisplayNetInfo {
    type V = DisplayNetInfoV;

    open spec fn view(&self) -> DisplayNetInfoV {
        DisplayNetInfoV {
            net_name: self.net_name.0@,
            pads: pads_v(self.pads@),
            net_class_name: self.net_class_name.0@,
            default_trace_width: self.default_trace_width,
            default_trace_clearance: self.default_trace_clearance,
            via_diameter: self.via_diameter,
        }
    }
}

pub open spec fn net_infos_v(s: Seq<DisplayNetInfo>) -> Seq<DisplayNetInfoV> {
    Seq::new(s.len(), |i: int| s[i]@)
}

/// The whole board ready for display: its extent and its nets, in
/// net-insertion order.
pub struct DisplayFormat {
    pub width: i64,
    pub height: i64,
    pub center: (i64, i64),
    pub obstacle_lines: Vec<Line>,
    pub obstacle_polygons: Vec<Polygon>,
    pub nets: Vec<DisplayNetInfo>,
}

/// Caller-supplied overrides: per-pad trace width and clearance, and a
/// designated source pad per net; every entry is optional.
pub struct ExtraInfo {
    pub pad_name_to_trace_width: Vec<(PadName, i64)>,
    pub pad_name_to_trace_clearance: Vec<(PadName, i64)>,
    pub net_name_to_source_pad: Vec<(NetName, PadName)>,
}

impl ExtraInfo {
    /// An override layer with no entries.
    pub fn empty() -> (r: ExtraInfo)
        ensures
            r.pad_name_to_trace_width@.len() == 0,
            r.pad_name_to_trace_clearance@.len() == 0,
            r.net_name_to_source_pad@.len() == 0,
    {
        ExtraInfo {
            pad_name_to_trace_width: Vec::new(),
            pad_name_to_trace_clearance: Vec::new(),
            net_name_to_source_pad: Vec::new(),
        }
    }
}

/// The first override for `name` in an association list, if any.
pub open spec fn assoc_i64(entries: Seq<(PadName, i64)>, name: Seq<char>, i: int) -> Option<i64>
    decreases entries.len() - i,
{
    if 0 <= i < entries.len() {
        if entries[i].0.0@ == name {
            Some(entries[i].1)
        } else {
            assoc_i64(entries, name, i + 1)
        }
    } else {
        None
    }
}

/// The first source-pad override for `name`, if any.
pub open spec fn assoc_pad_name(
    entries: Seq<(NetName, PadName)>,
    name: Seq<char>,
    i: int,
) -> Option<Seq<char>>
    decreases entries.len() - i,
{
    if 0 <= i < entries.len() {
        if entries[i].0.0@ == name {
            Some(entries[i].1.0@)
        } else {
            assoc_pad_name(entries, name, i + 1)
        }
    } else {
        None
    }
}

/// Looks up a per-pad override.
pub fn lookup_i64(entries: &Vec<(PadName, i64)>, name: &String) -> (r: Option<i64>)
    ensures
        r == assoc_i64(entries@, name@, 0),
{
    let n = entries.len();
    let mut i: usize = 0;
    while i < n
        invariant
            0 <= i <= n == entries@.len(),
            assoc_i64(entries@, name@, 0) == assoc_i64(entries@, name@, i as int),
        decreases n - i,
    {
        if entries[i].0.0 == *name {
            return Some(entries[i].1);
        }
        i = i + 1;
    }
    None
}

/// Looks up a per-net source-pad override.
pub fn lookup_source_pad<'a>(
    entries: &'a Vec<(NetName, PadName)>,
    name: &String,
) -> (r: Option<&'a PadName>)
    ensures
        match r {
            Some(p) => assoc_pad_name(entries@, name@, 0) == Some(p.0@),
            None => assoc_pad_name(entries@, name@, 0) is None,
        },
{
    let n = entries.len();
    let mut i: usize = 0;
    while i < n
        invariant
            0 <= i <= n == entries@.len(),
            assoc_pad_name(entries@, name@, 0) == assoc_pad_name(entries@, name@, i as int),
        decreases n - i,
    {
        if entries[i].0.0 == *name {
            return Some(&entries[i].1);
        }
        i = i + 1;
    }
    None
}

} // verus!
