use vstd::prelude::*;

verus! {

/// A stored post: the canonical entity of the collection.
///
/// `id` holds the hex form of the store-assigned identifier and is
/// `None` until the post is persisted.  `date` is a timestamp in
/// milliseconds; listings sort by it, newest first.  `author` and
/// `category` are matched by case-insensitive prefix when filtering.
#[derive(Debug)]
pub struct Post {
    pub id: Option<String>,
    pub title: String,
    pub date: i64,
    pub author: String,
    pub category: String,
    pub content: String,
    pub image: String,
}

/// The wire shape of a post: the same fields.  An identifier coming
/// in over the wire is ignored — the store assigns one on creation —
/// but a stored post's identifier is carried out.
#[derive(Debug)]
pub struct JsonPost {
    pub id: Option<String>,
    pub title: String,
    pub date: i64,
    pub author: String,
    pub category: String,
    pub content: String,
    pub image: String,
}

/// The stored post a wire post converts to: every field carried over,
/// the identifier discarded.
pub open spec fn stored_of_wire(w: JsonPost) -> Post {
    Post {
        id: None,
        title: w.title,
        date: w.date,
        author: w.author,
        category: w.category,
        content: w.content,
        image: w.image,
    }
}

/// The wire post a stored post converts to: every field carried over,
/// the identifier included.
pub open spec fn wire_of_stored(p: Post) -> JsonPost {
    JsonPost {
        id: p.id,
        title: p.title,
        date: p.date,
        author: p.author,
        category: p.category,
        content: p.content,
        image: p.image,
    }
}

impl From<JsonPost> for Post {
    fn from(w: JsonPost) -> (r: Post) {
        Post {
            id: None,
            title: w.title,
            date: w.date,
            author: w.author,
            category: w.category,
            content: w.content,
            image: w.image,
        }
    }
}

impl vstd::std_specs::convert::FromSpecImpl<JsonPost> for Post {
    open spec fn obeys_from_spec() -> bool {
        true
    }

    open spec fn from_spec(w: JsonPost) -> Post {
        stored_of_wire(w)
    }
}

impl From<Post> for JsonPost {
    fn from(p: Post) -> (r: JsonPost) {
        JsonPost {
            id: p.id,
            title: p.title,
            date: p.date,
            author: p.author,
            category: p.category,
            content: p.content,
            image: p.image,
        }
    }
}

impl vstd::std_specs::convert::FromSpecImpl<Post> for JsonPost {
    open spec fn obeys_from_spec() -> bool {
        true
    }

    open spec fn from_spec(p: Post) -> JsonPost {
        wire_of_stored(p)
    }
}

/// Converting a wire post to a stored post and back preserves every
/// field except the identifier: the wire-to-storage direction discards
/// it — the store assigns identifiers — so none survives the round
/// trip, while the storage-to-wire direction alone keeps it.
pub proof fn lemma_wire_round_trip(w: JsonPost)
    ensures
        wire_of_stored(stored_of_wire(w)).title == w.title,
        wire_of_stored(stored_of_wire(w)).date == w.date,
        wire_of_stored(stored_of_wire(w)).author == w.author,
        wire_of_stored(stored_of_wire(w)).category == w.category,
        wire_of_stored(stored_of_wire(w)).content == w.content,
        wire_of_stored(stored_of_wire(w)).image == w.image,
        wire_of_stored(stored_of_wire(w)).id is None,
{
}

impl Post {
    /// A field-for-field copy of the post.
    pub fn duplicate(&self) -> (r: Post)
        ensures
            r == *self,
    {
        Post {
            id: match &self.id {
                Some(s) => Some(s.clone()),
                None => None,
            },
            title: self.title.clone(),
            date: self.date,
            author: self.author.clone(),
            category: self.category.clone(),
            content: self.content.clone(),
            image: self.image.clone(),
        }
    }
}

} // verus!
