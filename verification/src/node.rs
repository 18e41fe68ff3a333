//! One entry of the outline.

use crate::ident::{is_random_uuid, random_uuid};
use vstd::prelude::*;

verus! {

/// One entry of the outline as the table holds it. A node with content is
/// a leaf, one without is a folder. `children` and `parent` name other
/// nodes of the same table.
#[derive(Debug, Clone)]
pub struct TreeNode {
    pub id: u128,
    pub name: String,
    pub content: Option<String>,
    pub children: Vec<u128>,
    pub parent: Option<u128>,
}

/// What a node is, with its texts and its child list as sequences.
pub struct NodeModel {
    pub id: u128,
    pub name: Seq<char>,
    pub content: Option<Seq<char>>,
    pub children: Seq<u128>,
    pub parent: Option<u128>,
}

/// The characters of an optional text.
pub open spec fn text_of(content: Option<String>) -> Option<Seq<char>> {
    match content {
        Some(text) => Some(text@),
        None => None,
    }
}

/// The name that every node starts with.
pub open spec fn placeholder_name() -> Seq<char> {
    "New Node"@
}

impl NodeModel {
    /// A folder is a node without content, whether or not it has children.
    pub open spec fn is_folder(self) -> bool {
        self.content is None
    }

    /// The node as a command creates it: an empty folder under `parent`,
    /// with the placeholder name.
    pub open spec fn placeholder(id: u128, parent: Option<u128>) -> NodeModel {
        NodeModel { id, name: placeholder_name(), content: None, children: Seq::empty(), parent }
    }

    /// The node with `child` appended to its children.
    pub open spec fn with_child(self, child: u128) -> NodeModel {
        NodeModel { children: self.children.push(child), ..self }
    }
}

impl View for TreeNode {
    type V = NodeModel;

    open spec fn view(&self) -> NodeModel {
        NodeModel {
            id: self.id,
            name: self.name@,
            content: text_of(self.content),
            children: self.children@,
            parent: self.parent,
        }
    }
}

impl TreeNode {
    /// A detached node with the given name and content and a freshly drawn
    /// identifier: no parent, no children.
    pub fn new(name: String, content: Option<String>) -> (node: Self)
        ensures
            node@.name == name@,
            node@.content == text_of(content),
            node@.children == Seq::<u128>::empty(),
            node@.parent is None,
            is_random_uuid(node.id),
    {
        Self { id: random_uuid(), name, content, children: Vec::new(), parent: None }
    }

    /// The empty folder that a command adds under `parent`.
    pub fn placeholder(id: u128, parent: Option<u128>) -> (node: Self)
        ensures
            node@ == NodeModel::placeholder(id, parent),
    {
        Self { id, name: "New Node".to_string(), content: None, children: Vec::new(), parent }
    }

    pub fn is_folder(&self) -> (folder: bool)
        ensures
            folder == self@.is_folder(),
    {
        self.content.is_none()
    }
}

} // verus!
