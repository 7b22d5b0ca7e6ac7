//! The model behind a network map view: the nodes shown, and what is known
//! of each.
use vstd::prelude::*;

verus! {

/// What is shown of one node.
#[derive(Clone, Debug)]
pub struct NodeInfo {
    pub id: String,
    pub connections: u64,
    pub is_active: bool,
    pub last_message: String,
}

/// The details of the nodes shown.
#[derive(Clone, Debug)]
pub struct NodeInfoView {
    pub infos: Vec<NodeInfo>,
}

impl NodeInfoView {
    pub fn new(infos: Vec<NodeInfo>) -> (r: NodeInfoView)
        ensures
            r.infos@ == infos@,
    {
        NodeInfoView { infos }
    }
}

/// The identifiers of the nodes shown, in display order.
#[derive(Clone, Debug)]
pub struct NodeIdList {
    pub ids: Vec<String>,
}

impl NodeIdList {
    pub fn new(ids: Vec<String>) -> (r: NodeIdList)
        ensures
            r.ids@ == ids@,
    {
        NodeIdList { ids }
    }
}

#[derive(Clone, Debug)]
pub struct App {
    pub node_list: NodeIdList,
    pub node_info: NodeInfoView,
}

impl App {
    /// A map showing one sample node.
    pub fn new() -> (r: App)
        ensures
            r.node_info.infos@.len() == 1,
            r.node_info.infos@[0].id@ == "sodisofjhosd"@,
            r.node_info.infos@[0].connections == 10,
            r.node_info.infos@[0].is_active,
            r.node_info.infos@[0].last_message@ == "hey how are you?"@,
            r.node_list.ids@.len() == 1,
            r.node_list.ids@[0]@ == "sodisofjhosd"@,
    {
        let info = NodeInfo {
            id: "sodisofjhosd".to_owned(),
            connections: 10,
            is_active: true,
            last_message: "hey how are you?".to_owned(),
        };
        let first_id = info.id.clone();
        let mut infos: Vec<NodeInfo> = Vec::new();
        infos.push(info);
        let node_info = NodeInfoView::new(infos);
        let mut ids: Vec<String> = Vec::new();
        ids.push(first_id);
        let node_list = NodeIdList::new(ids);
        App { node_list, node_info }
    }
}

} // verus!
