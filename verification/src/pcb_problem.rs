//! The routing-problem aggregate: per-net sources, sink connections,
//! colors, and unique connection identifiers.
//!
//! Build a problem with `new`, `add_net` and `add_connection`.  Net
//! names are unique; connection identifiers are handed out by a counter
//! that starts at zero, never repeats, and grows by one per connection,
//! so identifiers are pairwise distinct and strictly increasing in
//! assignment order.

use vstd::prelude::*;

use crate::distinct_color_generator::{color_for, color_for_index, ColorFloat3};
use crate::pad::{Pad, PadV};
use crate::shapes::{Line, Polygon};

verus! {

#[derive(Debug, Clone, PartialEq, Eq, PartialOrd, Ord, Hash)]
pub struct NetName(pub String);

#[derive(Debug, Clone, PartialEq, Eq, PartialOrd, Ord, Hash)]
pub struct NetClassName(pub String);

#[derive(Copy, Debug, Clone, PartialEq, Hash, Eq, PartialOrd, Ord, Structural)]
pub struct ConnectionID(pub usize);

/// One sink connection of a net.
#[derive(Debug)]
pub struct Connection {
    pub net_name: NetName,
    pub connection_id: ConnectionID,
    pub sink: Pad,
    pub sink_trace_width: i64,
    pub sink_trace_clearance: i64,
}

pub struct ConnectionV {
    pub net_name: Seq<char>,
    pub connection_id: ConnectionID,
    pub sink: PadV,
    pub sink_trace_width: i64,
    pub sink_trace_clearance: i64,
}

impl View for Connection {
    type V = ConnectionV;

    open spec fn view(&self) -> ConnectionV {
        ConnectionV {
            net_name: self.net_name.0@,
            connection_id: self.connection_id,
            sink: self.sink@,
            sink_trace_width: self.sink_trace_width,
            sink_trace_clearance: self.sink_trace_clearance,
        }
    }
}

pub open spec fn connections_v(s: Seq<Connection>) -> Seq<ConnectionV> {
    Seq::new(s.len(), |i: int| s[i]@)
}

/// One net of the problem: its color, source pad, and connections.
#[derive(Debug)]
pub struct NetInfo {
    pub net_name: NetName,
    pub color: ColorFloat3,
    pub source: Pad,
    pub source_trace_width: i64,
    pub source_trace_clearance: i64,
    pub connections: Vec<Connection>,
}

pub struct NetInfoV {
    pub net_name: Seq<char>,
    pub color: ColorFloat3,
    pub source: PadV,
    pub source_trace_width: i64,
    pub source_trace_clearance: i64,
    pub connections: Seq<ConnectionV>,
}

impl View for NetInfo {
    type V = NetInfoV;

    open spec fn view(&self) -> NetInfoV {
        NetInfoV {
            net_name: self.net_name.0@,
            color: self.color,
            source: self.source@,
            source_trace_width: self.source_trace_width,
            source_trace_clearance: self.source_trace_clearance,
            connections: connections_v(self.connections@),
        }
    }
}

pub open spec fn net_infos_v(s: Seq<NetInfo>) -> Seq<NetInfoV> {
    Seq::new(s.len(), |i: int| s[i]@)
}

/// The routing problem: board extent and nets in insertion order.
pub struct PcbProblem {
    pub width: i64,
    pub height: i64,
    pub center: (i64, i64),
    pub obstacle_lines: Vec<Line>,
    pub obstacle_polygons: Vec<Polygon>,
    pub nets: Vec<NetInfo>,
    pub next_connection_id: usize,
}

pub struct PcbProblemV {
    pub width: i64,
    pub height: i64,
    pub center: (i64, i64),
    pub nets: Seq<NetInfoV>,
    pub next_connection_id: int,
}

impl View for PcbProblem {
    type V = PcbProblemV;

    open spec fn view(&self) -> PcbProblemV {
        PcbProblemV {
            width: self.width,
            height: self.height,
            center: self.center,
            nets: net_infos_v(self.nets@),
            next_connection_id: self.next_connection_id as int,
        }
    }
}

/// Whether the problem already holds a net of this name.
pub open spec fn net_name_present(p: PcbProblemV, name: Seq<char>) -> bool {
    exists|i: int| 0 <= i < p.nets.len() && (#[trigger] p.nets[i]).net_name == name
}

/// The index of the net named `name`, searching from `i`.
pub open spec fn net_index_of(nets: Seq<NetInfoV>, name: Seq<char>, i: int) -> int
    decreases nets.len() - i,
{
    if 0 <= i < nets.len() {
        if nets[i].net_name == name {
            i
        } else {
            net_index_of(nets, name, i + 1)
        }
    } else {
        nets.len() as int
    }
}

impl PcbProblem {
    /// The problem's construction invariant: net names are unique;
    /// every connection carries its net's name; every identifier is
    /// below the counter, strictly increasing within each net, and
    /// pairwise distinct across the whole problem.
    #[verifier::opaque]
    pub open spec fn wf(self) -> bool {
        let p = self@;
        &&& forall|i: int, j: int|
            0 <= i < j < p.nets.len() ==> (#[trigger] p.nets[i]).net_name != (
            #[trigger] p.nets[j]).net_name
        &&& forall|i: int, k: int|
            0 <= i < p.nets.len() && 0 <= k < p.nets[i].connections.len() ==> (
            #[trigger] p.nets[i].connections[k]).connection_id.0 < p.next_connection_id
        &&& forall|i: int, k: int|
            0 <= i < p.nets.len() && 0 <= k < p.nets[i].connections.len() ==> (
            #[trigger] p.nets[i].connections[k]).net_name == p.nets[i].net_name
        &&& forall|i: int, k1: int, k2: int|
            0 <= i < p.nets.len() && 0 <= k1 < k2 < p.nets[i].connections.len() ==> (
            #[trigger] p.nets[i].connections[k1]).connection_id.0 < (
            #[trigger] p.nets[i].connections[k2]).connection_id.0
        &&& forall|i1: int, k1: int, i2: int, k2: int|
            0 <= i1 < p.nets.len() && 0 <= k1 < p.nets[i1].connections.len() && 0 <= i2
                < p.nets.len() && 0 <= k2 < p.nets[i2].connections.len() && (i1 != i2 || k1 != k2)
                ==> (#[trigger] p.nets[i1].connections[k1]).connection_id != (
            #[trigger] p.nets[i2].connections[k2]).connection_id
    }

    /// An empty problem over a board of the given extent.
    pub fn new(width: i64, height: i64, center: (i64, i64)) -> (r: PcbProblem)
        ensures
            r.wf(),

            r@.width == width,
            r@.height == height,
            r@.center == center,
            r@.nets.len() == 0,
            r@.next_connection_id == 0,
    {
        let r = PcbProblem {
            width,
            height,
            center,
            obstacle_lines: Vec::new(),
            obstacle_polygons: Vec::new(),
            nets: Vec::new(),
            next_connection_id: 0,
        };
        proof {
            reveal(PcbProblem::wf);
            assert(net_infos_v(r.nets@) =~= Seq::<NetInfoV>::empty());
        }
        r
    }

    /// Adds a net with its source pad; its color is the next one of the
    /// sequence, by insertion index.  Fails exactly when a net of this
    /// name is already present, leaving the problem unchanged.
    #[verifier::rlimit(100)]
    #[verifier::loop_isolation(false)]
    pub fn add_net(
        &mut self,
        net_name: NetName,
        source: Pad,
        source_trace_width: i64,
        source_trace_clearance: i64,
    ) -> (r: Result<(), String>)
        requires
            old(self).wf(),

        ensures
            final(self).wf(),
            r is Ok <==> !net_name_present(old(self)@, net_name.0@),
            r is Ok ==> final(self)@ == (PcbProblemV {
                nets: old(self)@.nets.push(
                    NetInfoV {
                        net_name: net_name.0@,
                        color: color_for(old(self)@.nets.len() as int),
                        source: source@,
                        source_trace_width,
                        source_trace_clearance,
                        connections: Seq::empty(),
                    },
                ),
                ..old(self)@
            }),
            r is Err ==> final(self)@ == old(self)@,
    {
        let n = self.nets.len();
        let mut i: usize = 0;
        while i < n
            invariant
                0 <= i <= n,
                *self == *old(self),
                forall|j: int| 0 <= j < i ==> (#[trigger] self@.nets[j]).net_name != net_name.0@,
            decreases n - i,
        {
            if self.nets[i].net_name.0 == net_name.0 {
                proof {
                    assert(self@.nets[i as int] == self.nets@[i as int]@);
                    assert((#[trigger] self@.nets[i as int]).net_name == net_name.0@);
                    assert(net_name_present(self@, net_name.0@));
                }
                return Err(crate::parse_to_struct::msg_with(
                    "NetID already exists: ",
                    &net_name.0,
                ));
            }
            i = i + 1;
        }
        let color = color_for_index(self.nets.len());
        let net_info = NetInfo {
            net_name,
            color,
            source,
            source_trace_width,
            source_trace_clearance,
            connections: Vec::new(),
        };
        let ghost old_nets = self@.nets;
        self.nets.push(net_info);
        proof {
            reveal(PcbProblem::wf);
            let len = old_nets.len() as int;
            assert(connections_v(Seq::<Connection>::empty()) =~= Seq::<ConnectionV>::empty());
            assert(final(self)@.nets[len] == self.nets@[len]@);
            assert forall|j: int| 0 <= j < len implies #[trigger] final(self)@.nets[j]
                == old_nets[j] by {
                assert(final(self)@.nets[j] == self.nets@[j]@);
                assert(old_nets[j] == old(self).nets@[j]@);
            }
            assert(final(self)@.nets =~= old_nets.push(final(self)@.nets[len]));
            assert(!net_name_present(old(self)@, net_name.0@));
        }
        Ok(())
    }

    /// Adds a sink connection to the named net and returns its fresh
    /// identifier: the counter's value, larger than every identifier
    /// already assigned.  Fails exactly when no net of this name
    /// exists, leaving the problem unchanged.
    #[verifier::rlimit(60)]
    pub fn add_connection(
        &mut self,
        net_name: NetName,
        sink: Pad,
        trace_width: i64,
        trace_clearance: i64,
    ) -> (r: Result<ConnectionID, String>)
        requires
            old(self).wf(),
            old(self)@.next_connection_id < usize::MAX,
        ensures
            final(self).wf(),
            r is Ok <==> net_name_present(old(self)@, net_name.0@),
            r is Ok ==> {
                let i = net_index_of(old(self)@.nets, net_name.0@, 0);
                &&& (r->Ok_0).0 == old(self)@.next_connection_id
                &&& final(self)@ == (PcbProblemV {
                    nets: old(self)@.nets.update(
                        i,
                        NetInfoV {
                            connections: old(self)@.nets[i].connections.push(
                                ConnectionV {
                                    net_name: net_name.0@,
                                    connection_id: r->Ok_0,
                                    sink: sink@,
                                    sink_trace_width: trace_width,
                                    sink_trace_clearance: trace_clearance,
                                },
                            ),
                            ..old(self)@.nets[i]
                        },
                    ),
                    next_connection_id: old(self)@.next_connection_id + 1,
                    ..old(self)@
                })
            },
            r is Ok ==> forall|i: int, k: int|
                0 <= i < old(self)@.nets.len() && 0 <= k < old(self)@.nets[i].connections.len()
                    ==> (#[trigger] old(self)@.nets[i].connections[k]).connection_id.0 < (
                r->Ok_0).0,
            r is Err ==> final(self)@ == old(self)@,
    {
        let n = self.nets.len();
        let mut i: usize = 0;
        while i < n
            invariant
                0 <= i <= n == self.nets.len(),
                *self == *old(self),
                old(self).wf(),
                old(self)@.next_connection_id < usize::MAX,
                net_index_of(self@.nets, net_name.0@, 0) == net_index_of(
                    self@.nets,
                    net_name.0@,
                    i as int,
                ),
                forall|j: int| 0 <= j < i ==> (#[trigger] self@.nets[j]).net_name != net_name.0@,
            decreases n - i,
        {
            if self.nets[i].net_name.0 == net_name.0 {
                proof {
                    assert(net_index_of(self@.nets, net_name.0@, 0) == i);
                    assert(net_name_present(self@, net_name.0@));
                }
                let connection_id = ConnectionID(self.next_connection_id);
                let connection = Connection {
                    net_name,
                    connection_id,
                    sink,
                    sink_trace_width: trace_width,
                    sink_trace_clearance: trace_clearance,
                };
                let ghost old_conns = self@.nets[i as int].connections;
                let net = &mut self.nets[i];
                net.connections.push(connection);
                self.next_connection_id = self.next_connection_id + 1;
                proof {
                    reveal(PcbProblem::wf);
                    assert(connections_v(self.nets@[i as int].connections@) =~= old_conns.push(
                        ConnectionV {
                            net_name: connection.net_name.0@,
                            connection_id,
                            sink: connection.sink@,
                            sink_trace_width: trace_width,
                            sink_trace_clearance: trace_clearance,
                        },
                    ));
                    assert(final(self)@.nets =~= old(self)@.nets.update(
                        i as int,
                        final(self)@.nets[i as int],
                    ));
                }
                return Ok(connection_id);
            }
            i = i + 1;
        }
        proof {
            assert(!net_name_present(self@, net_name.0@));
        }
        Err(crate::parse_to_struct::msg("NetID not found"))
    }
}

/// Within one well-formed problem, two different connections never
/// share an identifier.
pub proof fn lemma_connection_ids_distinct(
    p: PcbProblem,
    i1: int,
    k1: int,
    i2: int,
    k2: int,
)
    requires
        p.wf(),
        0 <= i1 < p@.nets.len(),
        0 <= k1 < p@.nets[i1].connections.len(),
        0 <= i2 < p@.nets.len(),
        0 <= k2 < p@.nets[i2].connections.len(),
        i1 != i2 || k1 != k2,
    ensures
        p@.nets[i1].connections[k1].connection_id != p@.nets[i2].connections[k2].connection_id,
{
    reveal(PcbProblem::wf);
}

/// Within one well-formed problem, identifiers grow strictly along each
/// net's connection list: later assignments carry larger identifiers.
pub proof fn lemma_connection_ids_increase(p: PcbProblem, i: int, k1: int, k2: int)
    requires
        p.wf(),
        0 <= i < p@.nets.len(),
        0 <= k1 < k2 < p@.nets[i].connections.len(),
    ensures
        p@.nets[i].connections[k1].connection_id.0 < p@.nets[i].connections[k2].connection_id.0,
{
    reveal(PcbProblem::wf);
}

/// When one net bears the name and all before it do not, the search
/// finds exactly that net.
pub proof fn lemma_net_index_unique(nets: Seq<NetInfoV>, name: Seq<char>, t: int)
    requires
        0 <= t < nets.len(),
        nets[t].net_name == name,
        forall|j: int| 0 <= j < t ==> (#[trigger] nets[j]).net_name != name,
    ensures
        net_index_of(nets, name, 0) == t,
{
    lemma_net_index_from(nets, name, 0, t);
}

proof fn lemma_net_index_from(nets: Seq<NetInfoV>, name: Seq<char>, i: int, t: int)
    requires
        0 <= i <= t < nets.len(),
        nets[t].net_name == name,
        forall|j: int| i <= j < t ==> (#[trigger] nets[j]).net_name != name,
    ensures
        net_index_of(nets, name, i) == t,
    decreases t - i,
{
    if i < t {
        lemma_net_index_from(nets, name, i + 1, t);
    }
}

} // verus!
