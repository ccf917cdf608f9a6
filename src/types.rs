use vstd::prelude::*;

verus! {

/// Address of a node of the store: an entry, a private tag record or a public tag path.
pub type EntryHash = usize;

/// Address of a link of the store.
pub type ActionHash = usize;

/// The declared visibility of a record.
#[derive(Clone, Copy, Debug, PartialEq, Eq, Structural)]
pub enum Visibility {
    Public,
    Private,
}

/// The failures of the tagging operations.
#[derive(Clone, Copy, Debug, PartialEq, Eq, Structural)]
pub enum TagError {
    /// A private tag with this value already exists.
    DuplicateTag,
    /// The tag value's length lies outside the configured bounds.
    InvalidLength,
    /// The target's visibility does not match the operation's mode.
    VisibilityViolation,
    /// No single live link applies the tag to the target.
    TagNotFound,
    /// The forward link was found but not its single reverse link.
    ReverseLinkMissing,
    /// The given address does not resolve.
    NotFound,
}

/// The kinds of link the store holds.
#[derive(Clone, Copy, Debug, PartialEq, Eq, Structural)]
pub enum TaggingLinkTypes {
    /// Root path to a public tag path.
    PublicPath,
    /// Public tag to tagged entry; its payload is the caller's.
    PublicEntry,
    /// Private tag to tagged entry; its payload is the caller's.
    PrivateEntry,
    /// Entry to public tag; its payload is the tag's value.
    PublicTags,
    /// Entry to private tag; its payload is empty.
    PrivateTags,
}

/// Bounds on the length of a tag value, in UTF-8 bytes, both inclusive.
#[derive(Clone, Copy, Debug, PartialEq, Eq, Structural)]
pub struct PropertyConfig {
    pub min_tag_name_length: u32,
    pub max_tag_name_length: u32,
}

/// A private tag record: its identity is its value.
pub struct PrivateTag {
    pub value: String,
}

/// The record kinds that the tagging domain itself writes.
pub enum TaggingEntry {
    PrivateTag(PrivateTag),
}

/// A request to apply tags to an entry.
pub struct TaggingInput {
    pub tags: Vec<String>,
    pub target: EntryHash,
    /// Payload of each tag-to-entry link.
    pub link_tag_to_entry: String,
}

/// A request to remove a private tag from an entry.
pub struct UntagInput {
    pub tag: String,
    pub target: EntryHash,
}

/// A node of the store.
pub enum Node {
    /// An application record, with its declared visibility.
    Record(Visibility),
    /// A record of the tagging domain, with the time it was created.
    Tagging(TaggingEntry, u64),
    /// A public tag: the path under the public root whose leaf is this value.
    PublicTag(String),
}

/// A link of the store. A tombstoned link stays, marked deleted.
pub struct Link {
    pub base: EntryHash,
    pub target: EntryHash,
    pub link_type: TaggingLinkTypes,
    pub tag: String,
    pub deleted: bool,
}

/// What a node holds, as plain values.
pub enum NodeV {
    Record(Visibility),
    PrivateTag { value: Seq<char>, created_at: u64 },
    PublicTag(Seq<char>),
}

/// What a link holds, as plain values.
pub struct LinkV {
    pub base: nat,
    pub target: nat,
    pub link_type: TaggingLinkTypes,
    pub tag: Seq<char>,
    pub deleted: bool,
}

impl View for Node {
    type V = NodeV;

    open spec fn view(&self) -> NodeV {
        match self {
            Node::Record(v) => NodeV::Record(*v),
            Node::Tagging(TaggingEntry::PrivateTag(t), c) => NodeV::PrivateTag {
                value: t.value@,
                created_at: *c,
            },
            Node::PublicTag(s) => NodeV::PublicTag(s@),
        }
    }
}

impl View for Link {
    type V = LinkV;

    open spec fn view(&self) -> LinkV {
        LinkV {
            base: self.base as nat,
            target: self.target as nat,
            link_type: self.link_type,
            tag: self.tag@,
            deleted: self.deleted,
        }
    }
}

impl NodeV {
    /// The visibility that the node declares: tag records are private, tag paths public.
    pub open spec fn visibility(self) -> Visibility {
        match self {
            NodeV::Record(v) => v,
            NodeV::PrivateTag { .. } => Visibility::Private,
            NodeV::PublicTag(_) => Visibility::Public,
        }
    }

    pub open spec fn is_private_tag(self, v: Seq<char>) -> bool {
        match self {
            NodeV::PrivateTag { value, .. } => value == v,
            _ => false,
        }
    }

    pub open spec fn is_public_tag(self, v: Seq<char>) -> bool {
        match self {
            NodeV::PublicTag(value) => value == v,
            _ => false,
        }
    }

    /// The creation time of a private tag record; zero for other nodes.
    pub open spec fn created_at(self) -> u64 {
        match self {
            NodeV::PrivateTag { created_at, .. } => created_at,
            _ => 0,
        }
    }

    /// The tag value of a tag node; empty for a record.
    pub open spec fn tag_value(self) -> Seq<char> {
        match self {
            NodeV::Record(_) => Seq::empty(),
            NodeV::PrivateTag { value, .. } => value,
            NodeV::PublicTag(value) => value,
        }
    }
}

} // verus!
