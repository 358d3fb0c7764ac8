use vstd::prelude::*;
use crate::node::{NodeType, kind_name};
use crate::text::{
    has_prefix, lemma_trim_end_clean, lemma_trim_idempotent, lemma_trim_start_clean, same_text,
    starts_with, trim, trim_end_of, trim_of, trim_start_of,
};

verus! {

/// The namespace that every stored node identifier carries.
pub open spec fn shape_prefix() -> Seq<char> {
    seq!['s', 'h', 'a', 'p', 'e', ':']
}

/// The stored form of an identifier: trimmed, and prefixed with the
/// namespace unless it already starts with it.
pub open spec fn normalized_id(raw: Seq<char>) -> Seq<char> {
    let t = trim_of(raw);
    if has_prefix(t, shape_prefix()) {
        t
    } else {
        shape_prefix() + t
    }
}

/// The node kind that a submitted type name denotes, after trimming.
pub open spec fn node_type_of(raw: Seq<char>) -> Option<NodeType> {
    let t = trim_of(raw);
    if t == kind_name(NodeType::Geo) {
        Some(NodeType::Geo)
    } else if t == kind_name(NodeType::Text) {
        Some(NodeType::Text)
    } else if t == kind_name(NodeType::Note) {
        Some(NodeType::Note)
    } else {
        None
    }
}

/// Trims `raw` and puts the namespace in front of it unless it is there.
pub fn normalize_shape_id(raw: &str) -> (r: String)
    ensures
        r@ == normalized_id(raw@),
{
    let trimmed = trim(raw);
    proof {
        reveal_strlit("shape:");
        assert("shape:"@ =~= shape_prefix());
    }
    if starts_with(trimmed, "shape:") {
        trimmed.to_owned()
    } else {
        String::from_str("shape:").concat(trimmed)
    }
}

/// Maps exactly `geo`, `text` and `note` (after trimming) to their kinds.
pub fn normalize_node_type(raw: &str) -> (r: Option<NodeType>)
    ensures
        r == node_type_of(raw@),
{
    let t = trim(raw);
    if same_text(t, NodeType::Geo.as_str()) {
        Some(NodeType::Geo)
    } else if same_text(t, NodeType::Text.as_str()) {
        Some(NodeType::Text)
    } else if same_text(t, NodeType::Note.as_str()) {
        Some(NodeType::Note)
    } else {
        None
    }
}

/// Normalizing an identifier that is already in stored form keeps it; a
/// stored identifier is never empty and has nothing to trim.
pub proof fn lemma_normalized_id_idempotent(raw: Seq<char>)
    ensures
        normalized_id(normalized_id(raw)) == normalized_id(raw),
        trim_of(normalized_id(raw)) == normalized_id(raw),
        normalized_id(raw).len() > 0,
{
    let t = trim_of(raw);
    lemma_trim_idempotent(raw);
    if !has_prefix(t, shape_prefix()) {
        let n = shape_prefix() + t;
        lemma_trim_start_clean(trim_start_of(raw));
        lemma_trim_end_clean(trim_start_of(raw));
        lemma_trim_start_clean(raw);
        assert(trim_start_of(n) == n);
        if t.len() > 0 {
            assert(n.last() == t.last());
        } else {
            assert(n.last() == ':');
        }
        assert(trim_end_of(n) == n);
        assert(n.subrange(0, 6) =~= shape_prefix());
    }
}

/// An identifier given without the namespace and the same identifier given
/// with it denote the same stored node.
pub proof fn lemma_prefix_insensitive(t: Seq<char>)
    requires
        trim_of(t) == t,
        !has_prefix(t, shape_prefix()),
    ensures
        normalized_id(shape_prefix() + t) == normalized_id(t),
{
    lemma_normalized_id_idempotent(t);
}

} // verus!
