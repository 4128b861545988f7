//! Where the node's outgoing messages travel.

use crate::messages::{Aggregation, DstLocation, SrcLocation};
use crate::name::XorName;
use crate::node_ops::NodeDuty;
use crate::prefix::Prefix;
use vstd::prelude::*;

verus! {

/// One journey of a message: from where, to where, and how the replies are
/// gathered.
#[derive(Clone, Copy, Debug, PartialEq, Eq)]
pub struct Itinerary {
    /// Where the message comes from.
    pub src: SrcLocation,
    /// Where the message goes.
    pub dst: DstLocation,
    /// How the replies are gathered.
    pub aggregation: Aggregation,
}

/// Plans the journeys of the messages that the node sends.
#[derive(Clone, Copy, Debug)]
pub struct Messaging {
    our_name: XorName,
    our_section: XorName,
}

impl Messaging {
    /// The name of the node that sends.
    pub closed spec fn our_name(&self) -> XorName {
        self.our_name
    }

    /// The name that stands for the section of the node that sends.
    pub closed spec fn our_section(&self) -> XorName {
        self.our_section
    }

    /// The source of a message: the section where it speaks for the section,
    /// else the node.
    pub open spec fn source(&self, section_source: bool) -> SrcLocation {
        if section_source {
            SrcLocation::Section(self.our_section())
        } else {
            SrcLocation::Node(self.our_name())
        }
    }

    /// The journeys that carry out `duty`: one for a single message, and one
    /// from the node for the word that a message could not be handled; for
    /// a message to several nodes one to each of them, in the order of the
    /// targets; none otherwise.
    pub open spec fn journeys(&self, duty: NodeDuty) -> Seq<Itinerary> {
        match duty {
            NodeDuty::Send(out) => seq![
                Itinerary {
                    src: self.source(out.section_source),
                    dst: out.dst,
                    aggregation: out.aggregation,
                },
            ],
            NodeDuty::SendToNodes { targets, aggregation, .. } => Seq::new(
                targets.elements().len(),
                |i: int|
                    Itinerary {
                        src: SrcLocation::Node(self.our_name()),
                        dst: DstLocation::Node(targets.elements()[i]),
                        aggregation,
                    },
            ),
            NodeDuty::SendError(out) => seq![
                Itinerary {
                    src: SrcLocation::Node(self.our_name()),
                    dst: out.dst,
                    aggregation: Aggregation::NoAggregation,
                },
            ],
            NodeDuty::ProposeOffline(_) => Seq::empty(),
            NodeDuty::NoOp => Seq::empty(),
        }
    }

    /// The planner for the node `our_name` in the section `our_prefix`.
    pub fn new(our_name: XorName, our_prefix: Prefix) -> (r: Messaging)
        ensures
            r.our_name() == our_name,
            r.our_section() == our_prefix.name,
    {
        Messaging { our_name, our_section: our_prefix.name }
    }

    /// Plans the journeys that carry out `duty`.
    pub fn process(&self, duty: &NodeDuty) -> (r: Vec<Itinerary>)
        ensures
            r@ == self.journeys(*duty),
    {
        let mut journeys: Vec<Itinerary> = Vec::new();
        match duty {
            NodeDuty::Send(out) => {
                let src = if out.section_source {
                    SrcLocation::Section(self.our_section)
                } else {
                    SrcLocation::Node(self.our_name)
                };
                journeys.push(Itinerary { src, dst: out.dst, aggregation: out.aggregation });
                assert(journeys@ =~= self.journeys(*duty));
            },
            NodeDuty::SendToNodes { targets, aggregation, .. } => {
                let mut i: usize = 0;
                while i < targets.len()
                    invariant
                        0 <= i <= targets.elements().len(),
                        journeys.len() == i,
                        forall|k: int|
                            0 <= k < i ==> journeys[k] == (Itinerary {
                                src: SrcLocation::Node(self.our_name()),
                                dst: DstLocation::Node(targets.elements()[k]),
                                aggregation: *aggregation,
                            }),
                    decreases targets.elements().len() - i,
                {
                    journeys.push(
                        Itinerary {
                            src: SrcLocation::Node(self.our_name),
                            dst: DstLocation::Node(targets.get(i)),
                            aggregation: *aggregation,
                        },
                    );
                    i = i + 1;
                }
                assert(journeys@ =~= self.journeys(*duty));
            },
            NodeDuty::SendError(out) => {
                journeys.push(
                    Itinerary {
                        src: SrcLocation::Node(self.our_name),
                        dst: out.dst,
                        aggregation: Aggregation::NoAggregation,
                    },
                );
                assert(journeys@ =~= self.journeys(*duty));
            },
            NodeDuty::ProposeOffline(_) => {
                assert(journeys@ =~= self.journeys(*duty));
            },
            NodeDuty::NoOp => {
                assert(journeys@ =~= self.journeys(*duty));
            },
        }
        journeys
    }
}

} // verus!
