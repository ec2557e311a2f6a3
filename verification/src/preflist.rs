//! Where a key lives.

use vstd::prelude::*;

verus! {

/// One partition that holds a key: the partition, the node it is on, and
/// whether it is a primary owner of the key. A caller can use it to reach
/// the key on the node where it lives.
#[derive(Debug)]
pub struct PreflistItem {
    pub partition: i64,
    pub node: String,
    pub is_primary: bool,
}

/// What a `PreflistItem` holds.
pub struct PreflistItemView {
    pub partition: i64,
    pub node: Seq<char>,
    pub is_primary: bool,
}

impl View for PreflistItem {
    type V = PreflistItemView;

    open spec fn view(&self) -> PreflistItemView {
        PreflistItemView {
            partition: self.partition,
            node: self.node@,
            is_primary: self.is_primary,
        }
    }
}

impl DeepView for PreflistItem {
    type V = PreflistItemView;

    open spec fn deep_view(&self) -> PreflistItemView {
        self@
    }
}

impl Clone for PreflistItem {
    fn clone(&self) -> (r: PreflistItem)
        ensures
            r@ == self@,
    {
        PreflistItem {
            partition: self.partition,
            node: self.node.clone(),
            is_primary: self.is_primary,
        }
    }
}

impl PreflistItem {
    pub fn new(partition: i64, node: &str, is_primary: bool) -> (r: PreflistItem)
        ensures
            r@ == (PreflistItemView { partition, node: node@, is_primary }),
    {
        PreflistItem { partition, node: node.to_owned(), is_primary }
    }
}

} // verus!
