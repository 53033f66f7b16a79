//! The records that decoding produces.
use vstd::prelude::*;

verus! {

/// A name/value pair attached to a data item.
#[derive(Debug, Clone, PartialEq, Eq)]
pub struct Tag {
    pub name: String,
    pub value: String,
}

impl View for Tag {
    type V = (Seq<char>, Seq<char>);

    open spec fn view(&self) -> (Seq<char>, Seq<char>) {
        (self.name@, self.value@)
    }
}

/// The view of a list of tags: each tag's name and value.
pub open spec fn tags_view(tags: Seq<Tag>) -> Seq<(Seq<char>, Seq<char>)> {
    tags.map_values(|t: Tag| t@)
}

/// One decoded data item of a bundle.
#[derive(Debug, Clone, PartialEq, Eq)]
pub struct DataItem {
    /// Name of the signature scheme.
    pub signature_type: String,
    /// Address derived from the owner's public key.
    pub owner: String,
    pub tags: Vec<Tag>,
    /// Id of the enclosing bundle transaction, when known.
    pub bundled_in: Option<String>,
    pub block_height: Option<i64>,
    pub timestamp: Option<i64>,
    /// Index of the item's entry in the bundle's header table.
    pub tx_pos: usize,
    /// The item's id, base64url-encoded.
    pub _id: String,
}

/// The mathematical content of a `DataItem`.
pub struct DataItemView {
    pub signature_type: Seq<char>,
    pub owner: Seq<char>,
    pub tags: Seq<(Seq<char>, Seq<char>)>,
    pub bundled_in: Option<Seq<char>>,
    pub block_height: Option<i64>,
    pub timestamp: Option<i64>,
    pub tx_pos: nat,
    pub id: Seq<char>,
}

/// The view of an optional string.
pub open spec fn opt_str_view(s: Option<String>) -> Option<Seq<char>> {
    match s {
        Some(t) => Some(t@),
        None => None,
    }
}

impl View for DataItem {
    type V = DataItemView;

    open spec fn view(&self) -> DataItemView {
        DataItemView {
            signature_type: self.signature_type@,
            owner: self.owner@,
            tags: tags_view(self.tags@),
            bundled_in: opt_str_view(self.bundled_in),
            block_height: self.block_height,
            timestamp: self.timestamp,
            tx_pos: self.tx_pos as nat,
            id: self._id@,
        }
    }
}

/// The view of a list of data items.
pub open spec fn items_view(items: Seq<DataItem>) -> Seq<DataItemView> {
    items.map_values(|d: DataItem| d@)
}

} // verus!
