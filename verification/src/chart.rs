//! The chart document and its assembly: items are collected per resource
//! and laid out resource by resource.

use vstd::prelude::*;
use crate::date::Date;
use crate::item::{build_item, item_of, Item, ItemModel};
use crate::record::{IssueRecord, RecordModel};
use crate::registry::{RegistryModel, Resource, ResourceModel, ResourceRegistry};

verus! {

/// The data of a Gantt chart.
#[derive(Debug, PartialEq, Eq)]
pub struct ChartDocument {
    /// The heading of the chart; always empty.
    pub title: String,
    /// A day to mark on the chart; always absent.
    pub marked_date: Option<Date>,
    /// The resources, in the order in which they were first seen.
    pub resources: Vec<Resource>,
    /// The items, resource by resource.
    pub items: Vec<Item>,
}

/// The mathematical content of a [`ChartDocument`].
pub struct DocumentModel {
    pub title: Seq<char>,
    pub marked_date: Option<Date>,
    pub resources: Seq<ResourceModel>,
    pub items: Seq<ItemModel>,
}

impl View for ChartDocument {
    type V = DocumentModel;

    open spec fn view(&self) -> DocumentModel {
        DocumentModel {
            title: self.title@,
            marked_date: self.marked_date,
            resources: self.resources.deep_view(),
            items: self.items.deep_view(),
        }
    }
}

impl DocumentModel {
    /// Every item lies on a resource of the document.
    pub open spec fn wf(self) -> bool {
        forall|i: int|
            0 <= i < self.items.len() ==> 0 <= (#[trigger] self.items[i]).resource_index
                < self.resources.len()
    }
}

/// The mathematical content of a [`ChartAssembler`]: the registry, and for
/// each resource the items placed on it so far, in the order of arrival.
pub struct AssemblerModel {
    pub registry: RegistryModel,
    pub lanes: Seq<Seq<ItemModel>>,
}

impl AssemblerModel {
    /// There is one lane for each resource, and the items of a lane carry
    /// the place of its resource.
    pub open spec fn wf(self) -> bool {
        &&& self.registry.wf()
        &&& self.lanes.len() == self.registry.titles.len()
        &&& forall|r: int, k: int|
            0 <= r < self.lanes.len() && 0 <= k < self.lanes[r].len() ==> (
            #[trigger] self.lanes[r][k]).resource_index == r
    }

    /// The assembler that has seen no record.
    pub open spec fn empty(colored: bool) -> AssemblerModel {
        AssemblerModel { registry: RegistryModel::empty(colored), lanes: Seq::empty() }
    }

    /// The item that a record gets: it lies on the resource of its assignee
    /// and starts on the day of creation if that resource is new.
    pub open spec fn item_for(self, record: RecordModel, created: Date) -> ItemModel {
        item_of(
            record,
            self.registry.place_of(record.assignee),
            !self.registry.knows(record.assignee),
            created,
        )
    }

    /// The assembler after one more record: the assignee is resolved, and the
    /// item goes to the end of the lane of its resource; a new resource gets
    /// a lane of its own after the others.
    pub open spec fn with_record(self, record: RecordModel, created: Date) -> AssemblerModel {
        let item = self.item_for(record, created);
        AssemblerModel {
            registry: self.registry.resolved(record.assignee),
            lanes: if self.registry.knows(record.assignee) {
                self.lanes.update(item.resource_index, self.lanes[item.resource_index].push(item))
            } else {
                self.lanes.push(seq![item])
            },
        }
    }

    /// The document of what has been assembled: the resources as published,
    /// and the lanes one after the other.
    pub open spec fn document(self) -> DocumentModel {
        DocumentModel {
            title: Seq::empty(),
            marked_date: None,
            resources: self.registry.published(),
            items: self.lanes.flatten(),
        }
    }
}

/// Collects the items of a chart, one lane per resource.
pub struct ChartAssembler {
    registry: ResourceRegistry,
    lanes: Vec<Vec<Item>>,
}

impl View for ChartAssembler {
    type V = AssemblerModel;

    closed spec fn view(&self) -> AssemblerModel {
        AssemblerModel { registry: self.registry@, lanes: self.lanes.deep_view() }
    }
}

impl ChartAssembler {
    /// The assembler is well formed: its registry is, and so is its content.
    pub closed spec fn wf(&self) -> bool {
        self.registry.wf() && self@.wf()
    }

    /// Makes an assembler that has seen no record; `colored` tells whether
    /// the resources are to get display colours.
    pub fn new(colored: bool) -> (assembler: ChartAssembler)
        ensures
            assembler.wf(),
            assembler@ == AssemblerModel::empty(colored),
    {
        let assembler = ChartAssembler { registry: ResourceRegistry::new(colored), lanes: Vec::new() };
        assert(assembler@.lanes =~= Seq::empty());
        assembler
    }

    /// Takes in one record with the date of its creation.
    pub fn add(&mut self, record: &IssueRecord, created: Date)
        requires
            old(self).wf(),
        ensures
            final(self).wf(),
            final(self)@ == old(self)@.with_record(record@, created),
    {
        let (index, first) = self.registry.resolve(record.assignee.as_str());
        let item = build_item(record, index, first, created);
        if first {
            let mut lane: Vec<Item> = Vec::new();
            lane.push(item);
            self.lanes.push(lane);
            assert(self@.lanes =~~= old(self)@.lanes.push(seq![item@]));
        } else {
            self.lanes[index].push(item);
            assert(self@.lanes =~~= old(self)@.lanes.update(
                index as int,
                old(self)@.lanes[index as int].push(item@),
            ));
        }
    }

    /// Ends the assembly and hands the document out: the resources as they
    /// are published, and the items of the first resource, then those of the
    /// second, and so on, each group in the order of arrival.
    pub fn finish(self) -> (doc: ChartDocument)
        requires
            self.wf(),
        ensures
            doc@ == self@.document(),
            doc@.wf(),
    {
        let ghost model = self@;
        let resources = self.registry.into_resources();
        let mut lanes = self.lanes;
        let mut items: Vec<Item> = Vec::new();
        let mut r: usize = 0;
        assert(model.lanes.take(0).flatten() =~= Seq::empty());
        while r < lanes.len()
            invariant
                r <= lanes.len(),
                model.wf(),
                lanes@.len() == model.lanes.len(),
                forall|k: int| r <= k < lanes@.len() ==> (#[trigger] lanes@[k]).deep_view() == model.lanes[k],
                items.deep_view() == model.lanes.take(r as int).flatten(),
                forall|i: int|
                    0 <= i < items@.len() ==> 0 <= (#[trigger] items@[i]).resource_index < model.lanes.len(),
            decreases lanes.len() - r,
        {
            proof {
                let upto = model.lanes.take(r as int);
                upto.lemma_flatten_push(model.lanes[r as int]);
                assert(model.lanes.take(r + 1) =~= upto.push(model.lanes[r as int]));
            }
            let ghost before = items@;
            let ghost lane = lanes@[r as int];
            items.append(&mut lanes[r]);
            proof {
                assert(items@ =~= before + lane@);
                assert(items.deep_view() =~= before.map_values(|i: Item| i@) + lane.deep_view());
                assert forall|i: int| 0 <= i < items@.len() implies 0 <= (
                #[trigger] items@[i]).resource_index < model.lanes.len() by {
                    if i >= before.len() {
                        let k = i - before.len();
                        assert(items@[i] == lane@[k]);
                        assert(lane.deep_view()[k] == model.lanes[r as int][k]);
                    }
                }
            }
            r += 1;
        }
        assert(model.lanes.take(r as int) =~= model.lanes);
        ChartDocument { title: String::new(), marked_date: None, resources, items }
    }
}

} // verus!
