use vstd::prelude::*;
use crate::node::{kind_name, Node, NodeType, NodeView, Real64};
use crate::text::same_text;

verus! {

/// Columns listed by `SELECT`, in order, with the kinds that the store keeps.
pub const LIST_SQL: &'static str = "SELECT id, type, x, y, content, width, height
             FROM nodes
             WHERE type IN ('geo', 'text', 'note')
             ORDER BY updated_at ASC, id ASC;";

/// One row as read back from the table. A column is `None` when its value
/// could not be decoded; `width` and `height` are `Some(None)` when NULL.
#[derive(Clone, Debug)]
pub struct RawRow {
    pub id: Option<String>,
    pub node_type: Option<String>,
    pub x: Option<Real64>,
    pub y: Option<Real64>,
    pub content: Option<String>,
    pub width: Option<Option<Real64>>,
    pub height: Option<Option<Real64>>,
}

/// The mathematical value of a row.
pub struct RowView {
    pub id: Option<Seq<char>>,
    pub node_type: Option<Seq<char>>,
    pub x: Option<Real64>,
    pub y: Option<Real64>,
    pub content: Option<Seq<char>>,
    pub width: Option<Option<Real64>>,
    pub height: Option<Option<Real64>>,
}

/// The view of an optional string.
pub open spec fn text_view(s: Option<String>) -> Option<Seq<char>> {
    match s {
        Some(v) => Some(v@),
        None => None,
    }
}

impl View for RawRow {
    type V = RowView;

    open spec fn view(&self) -> RowView {
        RowView {
            id: text_view(self.id),
            node_type: text_view(self.node_type),
            x: self.x,
            y: self.y,
            content: text_view(self.content),
            width: self.width,
            height: self.height,
        }
    }
}

/// A column of a row that could not be decoded.
#[derive(Clone, Copy, Debug, PartialEq, Eq, Structural)]
pub enum DecodeError {
    Id,
    NodeType,
    X,
    Y,
    Content,
    Width,
    Height,
}

/// The kind whose stored name is exactly `t`.
pub open spec fn stored_kind(t: Seq<char>) -> Option<NodeType> {
    if t == kind_name(NodeType::Geo) {
        Some(NodeType::Geo)
    } else if t == kind_name(NodeType::Text) {
        Some(NodeType::Text)
    } else if t == kind_name(NodeType::Note) {
        Some(NodeType::Note)
    } else {
        None
    }
}

/// Reading a row: the first column that failed to decode, in column order,
/// is an error; a row whose kind is outside the closed set is left out
/// (`Ok(None)`); any other row gives the node it holds.
pub open spec fn decoded(r: RowView) -> Result<Option<NodeView>, DecodeError> {
    if r.id is None {
        Err(DecodeError::Id)
    } else if r.node_type is None {
        Err(DecodeError::NodeType)
    } else if r.x is None {
        Err(DecodeError::X)
    } else if r.y is None {
        Err(DecodeError::Y)
    } else if r.content is None {
        Err(DecodeError::Content)
    } else if r.width is None {
        Err(DecodeError::Width)
    } else if r.height is None {
        Err(DecodeError::Height)
    } else {
        match stored_kind(r.node_type->0) {
            None => Ok(None),
            Some(t) => Ok(
                Some(
                    NodeView {
                        id: r.id->0,
                        node_type: t,
                        x: r.x->0,
                        y: r.y->0,
                        content: r.content->0,
                        width: r.width->0,
                        height: r.height->0,
                    },
                ),
            ),
        }
    }
}

/// The row that writing node `n` leaves in the table.
pub open spec fn stored_row(n: NodeView) -> RowView {
    RowView {
        id: Some(n.id),
        node_type: Some(kind_name(n.node_type)),
        x: Some(n.x),
        y: Some(n.y),
        content: Some(n.content),
        width: Some(n.width),
        height: Some(n.height),
    }
}

/// Reading a whole result set, in order: the first row that fails to decode
/// fails the read; rows of other kinds are left out.
pub open spec fn decoded_all(rows: Seq<RowView>) -> Result<Seq<NodeView>, DecodeError>
    decreases rows.len(),
{
    if rows.len() == 0 {
        Ok(seq![])
    } else {
        match decoded_all(rows.drop_last()) {
            Err(e) => Err(e),
            Ok(prev) => match decoded(rows.last()) {
                Err(e) => Err(e),
                Ok(None) => Ok(prev),
                Ok(Some(n)) => Ok(prev.push(n)),
            },
        }
    }
}

fn stored_kind_of(t: &str) -> (r: Option<NodeType>)
    ensures
        r == stored_kind(t@),
{
    if same_text(t, NodeType::Geo.as_str()) {
        Some(NodeType::Geo)
    } else if same_text(t, NodeType::Text.as_str()) {
        Some(NodeType::Text)
    } else if same_text(t, NodeType::Note.as_str()) {
        Some(NodeType::Note)
    } else {
        None
    }
}

/// Decodes one row, reporting the first column that could not be read.
pub fn decode_row(row: &RawRow) -> (r: Result<Option<Node>, DecodeError>)
    ensures
        match r {
            Ok(Some(n)) => decoded(row@) == Ok::<Option<NodeView>, DecodeError>(Some(n@)),
            Ok(None) => decoded(row@) == Ok::<Option<NodeView>, DecodeError>(None),
            Err(e) => decoded(row@) == Err::<Option<NodeView>, DecodeError>(e),
        },
{
    let id = match &row.id {
        Some(v) => v,
        None => return Err(DecodeError::Id),
    };
    let node_type = match &row.node_type {
        Some(v) => v,
        None => return Err(DecodeError::NodeType),
    };
    let x = match row.x {
        Some(v) => v,
        None => return Err(DecodeError::X),
    };
    let y = match row.y {
        Some(v) => v,
        None => return Err(DecodeError::Y),
    };
    let content = match &row.content {
        Some(v) => v,
        None => return Err(DecodeError::Content),
    };
    let width = match row.width {
        Some(v) => v,
        None => return Err(DecodeError::Width),
    };
    let height = match row.height {
        Some(v) => v,
        None => return Err(DecodeError::Height),
    };
    match stored_kind_of(node_type.as_str()) {
        None => Ok(None),
        Some(kind) => Ok(
            Some(
                Node {
                    id: id.clone(),
                    node_type: kind,
                    x,
                    y,
                    content: content.clone(),
                    width,
                    height,
                },
            ),
        ),
    }
}

proof fn lemma_decode_error_stays(s: Seq<RowView>, j: int)
    requires
        0 <= j <= s.len(),
        decoded_all(s.take(j)) is Err,
    ensures
        decoded_all(s) == decoded_all(s.take(j)),
    decreases s.len() - j,
{
    if j < s.len() {
        assert(s.take(j + 1).drop_last() == s.take(j));
        lemma_decode_error_stays(s, j + 1);
    } else {
        assert(s.take(j) == s);
    }
}

/// The views of a list of nodes.
pub open spec fn node_views(v: Seq<Node>) -> Seq<NodeView> {
    v.map_values(|n: Node| n@)
}

/// The views of a list of rows.
pub open spec fn row_views(v: Seq<RawRow>) -> Seq<RowView> {
    v.map_values(|r: RawRow| r@)
}

/// Decodes a result set in order, leaving out rows of other kinds.
pub fn decode_rows(rows: Vec<RawRow>) -> (r: Result<Vec<Node>, DecodeError>)
    ensures
        match r {
            Ok(nodes) => decoded_all(row_views(rows@)) == Ok::<Seq<NodeView>, DecodeError>(
                node_views(nodes@),
            ),
            Err(e) => decoded_all(row_views(rows@)) == Err::<Seq<NodeView>, DecodeError>(e),
        },
{
    let ghost all = row_views(rows@);
    let mut out: Vec<Node> = Vec::new();
    let mut i: usize = 0;
    assert(all.take(0) =~= Seq::<RowView>::empty());
    assert(node_views(out@) =~= Seq::<NodeView>::empty());
    while i < rows.len()
        invariant
            i <= rows.len(),
            all == row_views(rows@),
            decoded_all(all.take(i as int)) == Ok::<Seq<NodeView>, DecodeError>(
                node_views(out@),
            ),
        decreases rows.len() - i,
    {
        assert(all.take(i + 1).drop_last() == all.take(i as int));
        assert(all.take(i + 1).last() == rows@[i as int]@);
        match decode_row(&rows[i]) {
            Err(e) => {
                proof { lemma_decode_error_stays(all, i + 1); }
                return Err(e);
            },
            Ok(None) => {},
            Ok(Some(node)) => {
                let ghost before = out@;
                out.push(node);
                assert(node_views(out@) =~= node_views(before).push(node@));
            },
        }
        i = i + 1;
    }
    let n = rows.len();
    assert(all.take(n as int) == all);
    Ok(out)
}

} // verus!
