//! The problem assembler: from display records and caller overrides to
//! the final routing problem.
//!
//! For each net, in insertion order: the source pad is the override's
//! choice when one is given (and must then name a pad of the net), else
//! the first pad, with a warning when the net has exactly one pad and a
//! hard error when it has none.  All other pads become sink connections
//! with fresh, strictly increasing identifiers; widths and clearances
//! come from the override layer or the net's defaults.

use vstd::prelude::*;

use crate::distinct_color_generator::color_for;
use crate::pad::{pads_v, Pad, PadName, PadV};
use crate::parse_to_display_format::{
    assoc_i64, assoc_pad_name, lookup_i64, lookup_source_pad, net_infos_v, DisplayFormat,
    DisplayNetInfo, DisplayNetInfoV, ExtraInfo,
};
use crate::parse_to_struct::{msg, msg_with};
use crate::pcb_problem::{lemma_net_index_unique, net_name_present, NetInfoV, NetName, PcbProblem};

verus! {

/// Index of the first pad named `name`, or the length.
pub open spec fn pad_with_name_idx(pads: Seq<PadV>, name: Seq<char>, i: int) -> int
    decreases pads.len() - i,
{
    if 0 <= i < pads.len() {
        if pads[i].name == name {
            i
        } else {
            pad_with_name_idx(pads, name, i + 1)
        }
    } else {
        pads.len() as int
    }
}

/// Whether a source pad can be chosen for this net: the override's
/// choice must be one of the net's pads; without an override the net
/// must have at least one pad.
pub open spec fn source_choice_ok(
    n: DisplayNetInfoV,
    src_map: Seq<(NetName, PadName)>,
) -> bool {
    match assoc_pad_name(src_map, n.net_name, 0) {
        Some(pn) => pad_with_name_idx(n.pads, pn, 0) < n.pads.len(),
        None => n.pads.len() > 0,
    }
}

/// The chosen source pad.
pub open spec fn source_of(n: DisplayNetInfoV, src_map: Seq<(NetName, PadName)>) -> PadV {
    match assoc_pad_name(src_map, n.net_name, 0) {
        Some(pn) => n.pads[pad_with_name_idx(n.pads, pn, 0)],
        None => n.pads[0],
    }
}

/// Whether the source was chosen automatically for a one-pad net, which
/// is reported as a warning.
pub open spec fn single_pad_auto(n: DisplayNetInfoV, src_map: Seq<(NetName, PadName)>) -> bool {
    assoc_pad_name(src_map, n.net_name, 0) is None && n.pads.len() == 1
}

/// An override value, or the default.
pub open spec fn override_or(entries: Seq<(PadName, i64)>, name: Seq<char>, dflt: i64) -> i64 {
    match assoc_i64(entries, name, 0) {
        Some(v) => v,
        None => dflt,
    }
}

/// The net's sink pads: every pad whose name differs from the source's,
/// in order.  Pads sharing the source's name are all skipped.
pub open spec fn sinks_of(pads: Seq<PadV>, src_name: Seq<char>) -> Seq<PadV>
    decreases pads.len(),
{
    if pads.len() == 0 {
        Seq::empty()
    } else if pads[0].name == src_name {
        sinks_of(pads.subrange(1, pads.len() as int), src_name)
    } else {
        seq![pads[0]] + sinks_of(pads.subrange(1, pads.len() as int), src_name)
    }
}

/// A net with exactly one pad yields no sink connections: its only pad
/// is the source, so conversion proceeds with an empty connection list.
pub proof fn lemma_single_pad_no_sinks(pads: Seq<PadV>)
    requires
        pads.len() == 1,
    ensures
        sinks_of(pads, pads[0].name).len() == 0,
{
    assert(pads.subrange(1, pads.len() as int) =~= Seq::<PadV>::empty());
    assert(sinks_of(pads.subrange(1, pads.len() as int), pads[0].name) =~= Seq::<PadV>::empty());
}

/// How many sink connections the nets from `i` on contribute.
pub open spec fn sink_total(
    nets: Seq<DisplayNetInfoV>,
    src_map: Seq<(NetName, PadName)>,
    i: int,
) -> int
    decreases nets.len() - i,
{
    if 0 <= i < nets.len() {
        sinks_of(nets[i].pads, source_of(nets[i], src_map).name).len() + sink_total(
            nets,
            src_map,
            i + 1,
        )
    } else {
        0
    }
}

proof fn lemma_sink_total_nonneg(nets: Seq<DisplayNetInfoV>, src_map: Seq<(NetName, PadName)>, i: int)
    ensures
        sink_total(nets, src_map, i) >= 0,
    decreases nets.len() - i,
{
    if 0 <= i < nets.len() {
        lemma_sink_total_nonneg(nets, src_map, i + 1);
    }
}

/// Whether the whole conversion goes through: net names are pairwise
/// distinct, a source can be chosen for every net, and the connection
/// counter does not run out.
pub open spec fn convert_ok(
    nets: Seq<DisplayNetInfoV>,
    src_map: Seq<(NetName, PadName)>,
) -> bool {
    &&& forall|i: int, j: int|
        0 <= i < j < nets.len() ==> (#[trigger] nets[i]).net_name != (
        #[trigger] nets[j]).net_name
    &&& forall|i: int| 0 <= i < nets.len() ==> source_choice_ok(#[trigger] nets[i], src_map)
    &&& sink_total(nets, src_map, 0) <= usize::MAX as int
}

/// The warning text for a net whose single pad was chosen by default.
pub open spec fn warn_msg_of(net: Seq<char>) -> Seq<char> {
    "Warning: Net "@ + net + " has only one pad"@
}

/// The warnings the nets from `i` on produce, in order.
pub open spec fn warnings_from(
    nets: Seq<DisplayNetInfoV>,
    src_map: Seq<(NetName, PadName)>,
    i: int,
) -> Seq<Seq<char>>
    decreases nets.len() - i,
{
    if 0 <= i < nets.len() {
        let rest = warnings_from(nets, src_map, i + 1);
        if single_pad_auto(nets[i], src_map) {
            seq![warn_msg_of(nets[i].net_name)] + rest
        } else {
            rest
        }
    } else {
        Seq::empty()
    }
}

/// Whether one assembled net matches its display record: the chosen
/// source with its effective widths, and one connection per sink pad,
/// in order, with the overrides applied.
#[verifier::opaque]
pub open spec fn net_matches(
    ni: NetInfoV,
    dn: DisplayNetInfoV,
    wmap: Seq<(PadName, i64)>,
    cmap: Seq<(PadName, i64)>,
    src_map: Seq<(NetName, PadName)>,
    index: int,
) -> bool {
    let src = source_of(dn, src_map);
    let sinks = sinks_of(dn.pads, src.name);
    &&& ni.net_name == dn.net_name
    &&& ni.color == color_for(index)
    &&& ni.source == src
    &&& ni.source_trace_width == override_or(wmap, src.name, dn.default_trace_width)
    &&& ni.source_trace_clearance == override_or(cmap, src.name, dn.default_trace_clearance)
    &&& ni.connections.len() == sinks.len()
    &&& forall|k: int|
        0 <= k < sinks.len() ==> {
            let c = #[trigger] ni.connections[k];
            &&& c.sink == sinks[k]
            &&& c.net_name == dn.net_name
            &&& c.sink_trace_width == override_or(wmap, sinks[k].name, dn.default_trace_width)
            &&& c.sink_trace_clearance == override_or(
                cmap,
                sinks[k].name,
                dn.default_trace_clearance,
            )
        }
}

/// The assembler from display records and overrides to the problem.
pub struct Converter;

impl Converter {
    /// The net's source pad and whether choosing it deserves a warning.
    /// Fails exactly when the override names a pad the net does not
    /// have, or the net has no pads and no override.
    pub fn determine_source_pad(
        net_name: &NetName,
        pads: &Vec<Pad>,
        net_to_source: &Vec<(NetName, PadName)>,
    ) -> (r: Result<(Pad, bool), String>)
        ensures
            r is Ok <==> source_choice_ok(
                DisplayNetInfoV {
                    net_name: net_name.0@,
                    pads: pads_v(pads@),
                    net_class_name: Seq::empty(),
                    default_trace_width: 0,
                    default_trace_clearance: 0,
                    via_diameter: 0,
                },
                net_to_source@,
            ),
            r is Ok ==> {
                let pv = pads_v(pads@);
                match assoc_pad_name(net_to_source@, net_name.0@, 0) {
                    Some(pn) => (r->Ok_0).0@ == pv[pad_with_name_idx(pv, pn, 0)] && (r->Ok_0).1
                        == false,
                    None => (r->Ok_0).0@ == pv[0] && (r->Ok_0).1 == (pads@.len() == 1),
                }
            },
    {
        let ghost pv = pads_v(pads@);
        match lookup_source_pad(net_to_source, &net_name.0) {
            Some(source_pad_name) => {
                let n = pads.len();
                let mut i: usize = 0;
                while i < n
                    invariant
                        0 <= i <= n == pads@.len(),
                        pv == pads_v(pads@),
                        assoc_pad_name(net_to_source@, net_name.0@, 0) == Some(
                            source_pad_name.0@,
                        ),
                        pad_with_name_idx(pv, source_pad_name.0@, 0) == pad_with_name_idx(
                            pv,
                            source_pad_name.0@,
                            i as int,
                        ),
                    decreases n - i,
                {
                    proof {
                        assert(pv[i as int] == pads@[i as int]@);
                    }
                    if pads[i].name.0 == source_pad_name.0 {
                        assert(pad_with_name_idx(pv, source_pad_name.0@, 0) == i);
                        return Ok((pads[i].duplicate(), false));
                    }
                    i = i + 1;
                }
                assert(pad_with_name_idx(pv, source_pad_name.0@, 0) == pv.len());
                let mut m = msg("Specified source pad ");
                m.append(source_pad_name.0.as_str());
                m.append(" not found in net ");
                m.append(net_name.0.as_str());
                Err(m)
            },
            None => {
                if pads.len() == 0 {
                    return Err(msg_with("Net has no pads: ", &net_name.0));
                }
                proof {
                    assert(pv[0] == pads@[0]@);
                }
                let warn = pads.len() == 1;
                Ok((pads[0].duplicate(), warn))
            },
        }
    }

    /// The effective trace width and clearance for a pad: the override
    /// when one is given, else the defaults.
    pub fn get_trace_settings(
        pad_name: &PadName,
        default_width: i64,
        default_clearance: i64,
        extra_info: &ExtraInfo,
    ) -> (r: (i64, i64))
        ensures
            r.0 == override_or(
                extra_info.pad_name_to_trace_width@,
                pad_name.0@,
                default_width,
            ),
            r.1 == override_or(
                extra_info.pad_name_to_trace_clearance@,
                pad_name.0@,
                default_clearance,
            ),
    {
        let w = match lookup_i64(&extra_info.pad_name_to_trace_width, &pad_name.0) {
            Some(v) => v,
            None => default_width,
        };
        let c = match lookup_i64(&extra_info.pad_name_to_trace_clearance, &pad_name.0) {
            Some(v) => v,
            None => default_clearance,
        };
        (w, c)
    }

    /// Adds one connection per sink pad of the freshly added last net:
    /// every pad whose name differs from the source's, in order, with
    /// the override layer applied and identifiers counted up from the
    /// current counter.  Fails exactly when the counter would run out.
    #[verifier::rlimit(100)]
    fn add_sink_connections(
        problem: &mut PcbProblem,
        display_net: &DisplayNetInfo,
        extra_info: &ExtraInfo,
        source_name: &String,
    ) -> (r: Result<(), String>)
        requires
            old(problem).wf(),
            old(problem)@.nets.len() > 0,
            ({
                let last = old(problem)@.nets.len() - 1;
                &&& old(problem)@.nets[last].net_name == display_net@.net_name
                &&& old(problem)@.nets[last].connections.len() == 0
                &&& forall|j: int|
                    0 <= j < last ==> (#[trigger] old(problem)@.nets[j]).net_name
                        != display_net@.net_name
            }),
        ensures
            final(problem).wf(),
            r is Ok <==> old(problem)@.next_connection_id + sinks_of(
                display_net@.pads,
                source_name@,
            ).len() <= usize::MAX as int,
            r is Ok ==> ({
                let last = old(problem)@.nets.len() - 1;
                let sinks = sinks_of(display_net@.pads, source_name@);
                &&& final(problem)@.nets.len() == old(problem)@.nets.len()
                &&& forall|j: int|
                    0 <= j < last ==> #[trigger] final(problem)@.nets[j] == old(
                        problem,
                    )@.nets[j]
                &&& final(problem)@.nets[last].net_name == old(problem)@.nets[last].net_name
                &&& final(problem)@.nets[last].color == old(problem)@.nets[last].color
                &&& final(problem)@.nets[last].source == old(problem)@.nets[last].source
                &&& final(problem)@.nets[last].source_trace_width == old(
                    problem,
                )@.nets[last].source_trace_width
                &&& final(problem)@.nets[last].source_trace_clearance == old(
                    problem,
                )@.nets[last].source_trace_clearance
                &&& final(problem)@.nets[last].connections.len() == sinks.len()
                &&& forall|k: int|
                    0 <= k < sinks.len() ==> {
                        let c = #[trigger] final(problem)@.nets[last].connections[k];
                        &&& c.sink == sinks[k]
                        &&& c.net_name == display_net@.net_name
                        &&& c.sink_trace_width == override_or(
                            extra_info.pad_name_to_trace_width@,
                            sinks[k].name,
                            display_net@.default_trace_width,
                        )
                        &&& c.sink_trace_clearance == override_or(
                            extra_info.pad_name_to_trace_clearance@,
                            sinks[k].name,
                            display_net@.default_trace_clearance,
                        )
                        &&& c.connection_id.0 == old(problem)@.next_connection_id + k
                    }
                &&& final(problem)@.next_connection_id == old(problem)@.next_connection_id
                    + sinks.len()
                &&& final(problem)@.width == old(problem)@.width
                &&& final(problem)@.height == old(problem)@.height
                &&& final(problem)@.center == old(problem)@.center
            }),
    {
        let ghost dn = display_net@;
        let ghost src_name = source_name@;
        let ghost sinks = sinks_of(dn.pads, src_name);
        let ghost last = old(problem)@.nets.len() - 1;
        let ghost start_id = old(problem)@.next_connection_id;
        let pads_ref = &display_net.pads;
        let m = pads_ref.len();
        proof {
            assert(dn.pads.subrange(0, dn.pads.len() as int) =~= dn.pads);
            assert(Seq::new(
                problem@.nets[last].connections.len(),
                |t: int| problem@.nets[last].connections[t].sink,
            ) =~= Seq::<PadV>::empty());
            assert(sinks =~= Seq::new(
                problem@.nets[last].connections.len(),
                |t: int| problem@.nets[last].connections[t].sink,
            ) + sinks_of(dn.pads.subrange(0, dn.pads.len() as int), src_name));
        }
        let mut k: usize = 0;
        while k < m
            invariant
                0 <= k <= m == pads_ref@.len(),
                problem.wf(),
                dn == display_net@,
                src_name == source_name@,
                sinks == sinks_of(dn.pads, src_name),
                pads_v(pads_ref@) == dn.pads,
                last == old(problem)@.nets.len() - 1,
                start_id == old(problem)@.next_connection_id,
                0 <= last < problem@.nets.len(),
                problem@.nets.len() == old(problem)@.nets.len(),
                forall|j: int|
                    0 <= j < last ==> #[trigger] problem@.nets[j] == old(problem)@.nets[j],
                problem@.nets[last].net_name == dn.net_name,
                problem@.nets[last].color == old(problem)@.nets[last].color,
                problem@.nets[last].source == old(problem)@.nets[last].source,
                problem@.nets[last].source_trace_width == old(
                    problem,
                )@.nets[last].source_trace_width,
                problem@.nets[last].source_trace_clearance == old(
                    problem,
                )@.nets[last].source_trace_clearance,
                forall|j: int|
                    0 <= j < last ==> (#[trigger] problem@.nets[j]).net_name != dn.net_name,
                sinks =~= Seq::new(
                    problem@.nets[last].connections.len(),
                    |t: int| problem@.nets[last].connections[t].sink,
                ) + sinks_of(dn.pads.subrange(k as int, dn.pads.len() as int), src_name),
                forall|t: int|
                    0 <= t < problem@.nets[last].connections.len() ==> {
                        let c = #[trigger] problem@.nets[last].connections[t];
                        &&& c.sink == sinks[t]
                        &&& c.net_name == dn.net_name
                        &&& c.sink_trace_width == override_or(
                            extra_info.pad_name_to_trace_width@,
                            sinks[t].name,
                            dn.default_trace_width,
                        )
                        &&& c.sink_trace_clearance == override_or(
                            extra_info.pad_name_to_trace_clearance@,
                            sinks[t].name,
                            dn.default_trace_clearance,
                        )
                        &&& c.connection_id.0 == start_id + t
                    },
                problem@.next_connection_id == start_id
                    + problem@.nets[last].connections.len(),
                problem@.width == old(problem)@.width,
                problem@.height == old(problem)@.height,
                problem@.center == old(problem)@.center,
            decreases m - k,
        {
            let ghost rest = dn.pads.subrange(k as int, dn.pads.len() as int);
            proof {
                assert(pads_v(pads_ref@)[k as int] == pads_ref@[k as int]@);
                assert(rest[0] == dn.pads[k as int]);
                assert(rest.subrange(1, rest.len() as int) =~= dn.pads.subrange(
                    k + 1,
                    dn.pads.len() as int,
                ));
            }
            let pad = &pads_ref[k];
            if pad.name.0 == *source_name {
                k = k + 1;
                continue ;
            }
            if problem.next_connection_id == usize::MAX {
                proof {
                    assert(sinks_of(rest, src_name).len() >= 1);
                    assert(sinks.len() >= problem@.nets[last].connections.len() + 1);
                }
                return Err(msg("Connection identifiers exhausted"));
            }
            let (sink_width, sink_clearance) = Self::get_trace_settings(
                &pad.name,
                display_net.default_trace_width,
                display_net.default_trace_clearance,
                extra_info,
            );
            let ghost done_before = problem@.nets[last].connections;
            proof {
                lemma_net_index_unique(problem@.nets, dn.net_name, last);
                assert(net_name_present(problem@, dn.net_name)) by {
                    assert((#[trigger] problem@.nets[last]).net_name == dn.net_name);
                }
            }
            match problem.add_connection(
                NetName(display_net.net_name.0.clone()),
                pad.duplicate(),
                sink_width,
                sink_clearance,
            ) {
                Ok(_) => {},
                Err(_) => {
                    proof {
                        assert(false);
                    }
                    return Err(msg("NetID not found"));
                },
            }
            proof {
                let done = problem@.nets[last].connections;
                assert(done =~= done_before.push(done[done_before.len() as int]));
                assert(sinks =~= Seq::new(done.len(), |t: int| done[t].sink) + sinks_of(
                    dn.pads.subrange(k + 1, dn.pads.len() as int),
                    src_name,
                ));
            }
            k = k + 1;
        }
        proof {
            assert(dn.pads.subrange(dn.pads.len() as int, dn.pads.len() as int)
                =~= Seq::<PadV>::empty());
            let done = problem@.nets[last].connections;
            assert(sinks =~= Seq::new(done.len(), |t: int| done[t].sink));
        }
        Ok(())
    }

    /// Adds one net of the display form to the problem: chooses its
    /// source pad, registers the net with the next color, and adds one
    /// connection per sink pad.  Returns whether a single-pad warning
    /// is due.  Fails exactly when the net's name is already taken, no
    /// source can be chosen, or the connection counter would run out.
    #[verifier::rlimit(100)]
    fn add_one_net(
        problem: &mut PcbProblem,
        display_net: &DisplayNetInfo,
        extra_info: &ExtraInfo,
    ) -> (r: Result<bool, String>)
        requires
            old(problem).wf(),
        ensures
            final(problem).wf(),
            r is Ok <==> !net_name_present(old(problem)@, display_net@.net_name)
                && source_choice_ok(display_net@, extra_info.net_name_to_source_pad@) && old(
                problem,
            )@.next_connection_id + sinks_of(
                display_net@.pads,
                source_of(display_net@, extra_info.net_name_to_source_pad@).name,
            ).len() <= usize::MAX as int,
            r is Ok ==> ({
                let dn = display_net@;
                let smap = extra_info.net_name_to_source_pad@;
                let sinks = sinks_of(dn.pads, source_of(dn, smap).name);
                &&& final(problem)@.nets.len() == old(problem)@.nets.len() + 1
                &&& forall|j: int|
                    0 <= j < old(problem)@.nets.len() ==> #[trigger] final(problem)@.nets[j]
                        == old(problem)@.nets[j]
                &&& final(problem)@.nets[old(problem)@.nets.len() as int].net_name == dn.net_name
                &&& net_matches(
                    final(problem)@.nets[old(problem)@.nets.len() as int],
                    dn,
                    extra_info.pad_name_to_trace_width@,
                    extra_info.pad_name_to_trace_clearance@,
                    smap,
                    old(problem)@.nets.len() as int,
                )
                &&& final(problem)@.nets[old(problem)@.nets.len() as int].connections.len()
                    == sinks.len()
                &&& forall|k: int|
                    0 <= k < sinks.len() ==> (#[trigger] final(problem)@.nets[old(
                        problem,
                    )@.nets.len() as int].connections[k]).connection_id.0 == old(
                        problem,
                    )@.next_connection_id + k
                &&& final(problem)@.next_connection_id == old(problem)@.next_connection_id
                    + sinks.len()
                &&& final(problem)@.width == old(problem)@.width
                &&& final(problem)@.height == old(problem)@.height
                &&& final(problem)@.center == old(problem)@.center
                &&& r->Ok_0 == single_pad_auto(dn, smap)
            }),
    {
        let ghost dn = display_net@;
        let ghost smap = extra_info.net_name_to_source_pad@;
        let (source_pad, warn) = match Self::determine_source_pad(
            &display_net.net_name,
            &display_net.pads,
            &extra_info.net_name_to_source_pad,
        ) {
            Ok(p) => p,
            Err(e) => {
                proof {
                    assert(!source_choice_ok(dn, smap));
                }
                return Err(e);
            },
        };
        proof {
            assert(source_pad@ == source_of(dn, smap));
        }
        let (source_width, source_clearance) = Self::get_trace_settings(
            &source_pad.name,
            display_net.default_trace_width,
            display_net.default_trace_clearance,
            extra_info,
        );
        let ghost src_name = source_pad@.name;
        let source_name = source_pad.name.0.clone();
        let ghost pre_add = problem@;
        let ghost last = pre_add.nets.len() as int;
        match problem.add_net(
            NetName(display_net.net_name.0.clone()),
            source_pad,
            source_width,
            source_clearance,
        ) {
            Ok(()) => {},
            Err(_) => {
                return Err(msg("NetID already exists"));
            },
        }
        proof {
            assert(problem@.nets[last].net_name == dn.net_name);
            assert(problem@.nets[last].connections.len() == 0);
            assert forall|j: int| 0 <= j < last implies (#[trigger] problem@.nets[j]).net_name
                != dn.net_name by {
                assert(problem@.nets[j] == pre_add.nets[j]);
                assert((#[trigger] pre_add.nets[j]).net_name != dn.net_name);
            }
        }
        let ghost pre_sinks = problem@;
        match Self::add_sink_connections(problem, display_net, extra_info, &source_name) {
            Ok(()) => {},
            Err(e) => {
                return Err(e);
            },
        }
        proof {
            let sinks = sinks_of(dn.pads, src_name);
            let done = problem@.nets[last].connections;
            reveal(net_matches);
            assert(net_matches(
                problem@.nets[last],
                dn,
                extra_info.pad_name_to_trace_width@,
                extra_info.pad_name_to_trace_clearance@,
                smap,
                last,
            ));
        }
        Ok(warn)
    }

    /// Assembles the routing problem from the display records, applying
    /// the override layer, and returns it with the warnings emitted
    /// along the way.  Fails exactly when a net name repeats, a source
    /// pad cannot be chosen, or the connection counter would run out.
    #[verifier::rlimit(100)]
    pub fn convert(display_format: DisplayFormat, extra_info: ExtraInfo) -> (r: Result<
        (PcbProblem, Vec<String>),
        String,
    >)
        ensures
            r is Ok <==> convert_ok(
                net_infos_v(display_format.nets@),
                extra_info.net_name_to_source_pad@,
            ),
            r is Ok ==> {
                let fv = net_infos_v(display_format.nets@);
                let smap = extra_info.net_name_to_source_pad@;
                let p = (r->Ok_0).0;
                &&& p.wf()
                &&& p@.width == display_format.width
                &&& p@.height == display_format.height
                &&& p@.center == display_format.center
                &&& p@.nets.len() == fv.len()
                &&& forall|i: int|
                    0 <= i < fv.len() ==> net_matches(
                        #[trigger] p@.nets[i],
                        fv[i],
                        extra_info.pad_name_to_trace_width@,
                        extra_info.pad_name_to_trace_clearance@,
                        smap,
                        i,
                    )
                &&& forall|i1: int, k1: int, i2: int, k2: int|
                    0 <= i1 < i2 < p@.nets.len() && 0 <= k1 < p@.nets[i1].connections.len() && 0
                        <= k2 < p@.nets[i2].connections.len() ==> (
                    #[trigger] p@.nets[i1].connections[k1]).connection_id.0 < (
                    #[trigger] p@.nets[i2].connections[k2]).connection_id.0
                &&& forall|i: int, k: int|
                    0 <= i < p@.nets.len() && 0 <= k < p@.nets[i].connections.len() ==> (
                    #[trigger] p@.nets[i].connections[k]).connection_id.0 == sink_total(
                        fv,
                        smap,
                        0,
                    ) - sink_total(fv, smap, i) + k
                &&& p@.next_connection_id == sink_total(fv, smap, 0)
                &&& crate::dsn_struct::strings_v((r->Ok_0).1@) == warnings_from(fv, smap, 0)
            },
    {
        let ghost fv = net_infos_v(display_format.nets@);
        let ghost smap = extra_info.net_name_to_source_pad@;
        let ghost wmap = extra_info.pad_name_to_trace_width@;
        let ghost cmap = extra_info.pad_name_to_trace_clearance@;
        let mut problem = PcbProblem::new(
            display_format.width,
            display_format.height,
            display_format.center,
        );
        let mut warnings: Vec<String> = Vec::new();
        let nets = &display_format.nets;
        let n = nets.len();
        proof {
            assert(crate::dsn_struct::strings_v(warnings@) =~= Seq::<Seq<char>>::empty());
            lemma_sink_total_nonneg(fv, smap, 0);
        }
        let mut i: usize = 0;
        while i < n
            invariant
                0 <= i <= n == nets@.len(),
                fv == net_infos_v(nets@),
                fv == net_infos_v(display_format.nets@),
                smap == extra_info.net_name_to_source_pad@,
                wmap == extra_info.pad_name_to_trace_width@,
                cmap == extra_info.pad_name_to_trace_clearance@,
                problem.wf(),
                problem@.width == display_format.width,
                problem@.height == display_format.height,
                problem@.center == display_format.center,
                problem@.nets.len() == i,
                forall|j1: int, j2: int|
                    0 <= j1 < j2 < i ==> (#[trigger] fv[j1]).net_name != (
                    #[trigger] fv[j2]).net_name,
                forall|j: int| 0 <= j < i ==> (#[trigger] problem@.nets[j]).net_name
                    == fv[j].net_name,
                forall|j: int| 0 <= j < i ==> source_choice_ok(#[trigger] fv[j], smap),
                forall|j: int|
                    0 <= j < i ==> net_matches(
                        #[trigger] problem@.nets[j],
                        fv[j],
                        wmap,
                        cmap,
                        smap,
                        j,
                    ),
                forall|i1: int, k1: int, i2: int, k2: int|
                    0 <= i1 < i2 < problem@.nets.len() && 0 <= k1
                        < problem@.nets[i1].connections.len() && 0 <= k2
                        < problem@.nets[i2].connections.len() ==> (
                    #[trigger] problem@.nets[i1].connections[k1]).connection_id.0 < (
                    #[trigger] problem@.nets[i2].connections[k2]).connection_id.0,
                forall|i1: int, k1: int|
                    0 <= i1 < problem@.nets.len() && 0 <= k1
                        < problem@.nets[i1].connections.len() ==> (
                    #[trigger] problem@.nets[i1].connections[k1]).connection_id.0
                        < problem@.next_connection_id,
                forall|j: int, k: int|
                    0 <= j < i && 0 <= k < problem@.nets[j].connections.len() ==> (
                    #[trigger] problem@.nets[j].connections[k]).connection_id.0 == sink_total(
                        fv,
                        smap,
                        0,
                    ) - sink_total(fv, smap, j) + k,
                problem@.next_connection_id == sink_total(fv, smap, 0) - sink_total(
                    fv,
                    smap,
                    i as int,
                ),
                sink_total(fv, smap, 0) - sink_total(fv, smap, i as int) >= 0,
                crate::dsn_struct::strings_v(warnings@) + warnings_from(fv, smap, i as int)
                    == warnings_from(fv, smap, 0),
            decreases n - i,
        {
            let display_net = &nets[i];
            proof {
                assert(fv[i as int] == nets@[i as int]@);
                assert(display_net@ == fv[i as int]);
                lemma_sink_total_nonneg(fv, smap, i + 1);
            }
            let ghost pre = problem@;
            let warn = match Self::add_one_net(&mut problem, display_net, &extra_info) {
                Ok(w) => w,
                Err(e) => {
                    proof {
                        if net_name_present(pre, fv[i as int].net_name) {
                            let j = choose|j: int|
                                0 <= j < pre.nets.len() && (#[trigger] pre.nets[j]).net_name
                                    == fv[i as int].net_name;
                            assert(pre.nets[j].net_name == fv[j].net_name);
                            assert(!convert_ok(fv, smap));
                        } else if !source_choice_ok(fv[i as int], smap) {
                            assert(!convert_ok(fv, smap));
                        } else {
                            assert(sink_total(fv, smap, i as int) == sinks_of(
                                fv[i as int].pads,
                                source_of(fv[i as int], smap).name,
                            ).len() + sink_total(fv, smap, i + 1));
                            assert(sink_total(fv, smap, 0) > usize::MAX as int);
                            assert(!convert_ok(fv, smap));
                        }
                    }
                    return Err(e);
                },
            };
            if warn {
                let mut wm = msg("Warning: Net ");
                wm.append(display_net.net_name.0.as_str());
                wm.append(" has only one pad");
                let ghost old_warnings = crate::dsn_struct::strings_v(warnings@);
                proof {
                    assert(wm@ == warn_msg_of(fv[i as int].net_name));
                }
                warnings.push(wm);
                proof {
                    assert(crate::dsn_struct::strings_v(warnings@) =~= old_warnings.push(
                        warn_msg_of(fv[i as int].net_name),
                    ));
                    assert(old_warnings.push(warn_msg_of(fv[i as int].net_name))
                        + warnings_from(fv, smap, i + 1) =~= old_warnings + (seq![
                        warn_msg_of(fv[i as int].net_name)] + warnings_from(fv, smap, i + 1)));
                }
            }
            proof {
                assert(sink_total(fv, smap, i as int) == sinks_of(
                    fv[i as int].pads,
                    source_of(fv[i as int], smap).name,
                ).len() + sink_total(fv, smap, i + 1));
                assert forall|j1: int, j2: int| 0 <= j1 < j2 < i + 1 implies (
                #[trigger] fv[j1]).net_name != (#[trigger] fv[j2]).net_name by {
                    if j2 == i {
                        assert(pre.nets[j1].net_name == fv[j1].net_name);
                        assert(!net_name_present(pre, fv[i as int].net_name));
                        assert((#[trigger] pre.nets[j1]).net_name != fv[i as int].net_name);
                    }
                }
                assert forall|i1: int, k1: int, i2: int, k2: int|
                    0 <= i1 < i2 < problem@.nets.len() && 0 <= k1
                        < problem@.nets[i1].connections.len() && 0 <= k2
                        < problem@.nets[i2].connections.len() implies (
                #[trigger] problem@.nets[i1].connections[k1]).connection_id.0 < (
                #[trigger] problem@.nets[i2].connections[k2]).connection_id.0 by {
                    assert(problem@.nets[i1] == pre.nets[i1]);
                    if i2 < i {
                        assert(problem@.nets[i2] == pre.nets[i2]);
                    } else {
                        assert(problem@.nets[i2].connections[k2].connection_id.0
                            >= pre.next_connection_id);
                    }
                }
                assert forall|j: int, k: int|
                    0 <= j < i + 1 && 0 <= k
                        < problem@.nets[j].connections.len() implies (
                #[trigger] problem@.nets[j].connections[k]).connection_id.0 == sink_total(
                    fv,
                    smap,
                    0,
                ) - sink_total(fv, smap, j) + k by {
                    if j < i {
                        assert(problem@.nets[j] == pre.nets[j]);
                    } else {
                        assert(problem@.nets[j].connections[k].connection_id.0
                            == pre.next_connection_id + k);
                    }
                }
            }
            i = i + 1;
        }
        proof {
            assert(crate::dsn_struct::strings_v(warnings@) + Seq::<Seq<char>>::empty()
                =~= crate::dsn_struct::strings_v(warnings@));
        }
        Ok((problem, warnings))
    }

}

} // verus!
