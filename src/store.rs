use vstd::prelude::*;
use crate::node::{kind_name, Node, NodePayload, NodeType, NodeView, PayloadView};
use crate::rows::{decoded, stored_kind, stored_row, DecodeError};
use crate::normalize::{lemma_normalized_id_idempotent, node_type_of, normalized_id, normalize_node_type, normalize_shape_id};
use crate::text::{
    lemma_seq_lt_irreflexive, lemma_seq_lt_total, lemma_seq_lt_transitive, lemma_trim_idempotent, seq_lt, text_lt, trim,
    trim_of,
};
use crate::validate::{payload_valid, validate_node_payload, validation_outcome, ValidationError};

verus! {

/// Writes one record, replacing every column of an existing row with the
/// same id and stamping the write time. Parameters: id, type, x, y,
/// content, width, height.
pub const UPSERT_SQL: &'static str =
    "INSERT INTO nodes (id, type, x, y, content, width, height, updated_at)
             VALUES (?, ?, ?, ?, ?, ?, ?, unixepoch())
             ON CONFLICT(id) DO UPDATE SET
               type = excluded.type,
               x = excluded.x,
               y = excluded.y,
               content = excluded.content,
               width = excluded.width,
               height = excluded.height,
               updated_at = unixepoch();";

/// The record that writing a valid payload stores.
pub open spec fn record_of(p: PayloadView) -> NodeView {
    NodeView {
        id: normalized_id(p.id),
        node_type: match node_type_of(p.node_type) {
            Some(t) => t,
            None => NodeType::Geo,
        },
        x: p.x,
        y: p.y,
        content: p.content,
        width: p.width,
        height: p.height,
    }
}

/// Every payload of the batch passes validation.
pub open spec fn batch_valid(ps: Seq<NodePayload>) -> bool {
    forall|i: int| 0 <= i < ps.len() ==> payload_valid(#[trigger] ps[i]@)
}

/// Validates a whole batch before anything is written, then turns each
/// payload into the record to store, in the order given. A single invalid
/// payload fails the batch with the error of the first invalid one.
pub fn prepare_upsert(payloads: &Vec<NodePayload>) -> (r: Result<Vec<Node>, ValidationError>)
    ensures
        r is Ok <==> batch_valid(payloads@),
        match r {
            Ok(rows) => rows.len() == payloads.len() && forall|i: int|
                0 <= i < rows.len() ==> (#[trigger] rows@[i])@ == record_of(payloads@[i]@),
            Err(e) => exists|k: int|
                0 <= k < payloads.len() && batch_valid(payloads@.take(k))
                    && validation_outcome(#[trigger] payloads@[k]@, Err(e)),
        },
{
    let mut i: usize = 0;
    while i < payloads.len()
        invariant
            i <= payloads.len(),
            batch_valid(payloads@.take(i as int)),
        decreases payloads.len() - i,
    {
        let checked = validate_node_payload(&payloads[i]);
        match checked {
            Ok(()) => {},
            Err(e) => {
                return Err(e);
            },
        }
        assert(payloads@.take(i + 1) == payloads@.take(i as int).push(payloads@[i as int]));
        i = i + 1;
    }
    assert(payloads@.take(i as int) == payloads@);
    let mut rows: Vec<Node> = Vec::new();
    let mut j: usize = 0;
    while j < payloads.len()
        invariant
            j <= payloads.len(),
            batch_valid(payloads@),
            rows.len() == j,
            forall|k: int| 0 <= k < j ==> (#[trigger] rows@[k])@ == record_of(payloads@[k]@),
        decreases payloads.len() - j,
    {
        let p = &payloads[j];
        assert(payload_valid(payloads@[j as int]@));
        let t = normalize_node_type(p.node_type.as_str());
        match t {
            Some(kind) => {
                rows.push(
                    Node {
                        id: normalize_shape_id(p.id.as_str()),
                        node_type: kind,
                        x: p.x,
                        y: p.y,
                        content: p.content.clone(),
                        width: p.width,
                        height: p.height,
                    },
                );
            },
            None => {},
        }
        j = j + 1;
    }
    Ok(rows)
}

/// The identifiers that a delete call removes: each given identifier that
/// is not empty once trimmed, in its stored form.
pub open spec fn delete_targets(ids: Seq<String>) -> Set<Seq<char>> {
    Set::new(
        |s: Seq<char>|
            exists|i: int|
                0 <= i < ids.len() && trim_of(ids[i]@).len() > 0 && s == normalized_id(
                    #[trigger] ids[i]@,
                ),
    )
}

/// `v` is strictly ascending in the order of `seq_lt`, so it holds no
/// repetition.
pub open spec fn strictly_sorted(v: Seq<String>) -> bool {
    forall|j: int, k: int| 0 <= j < k < v.len() ==> seq_lt(#[trigger] v[j]@, #[trigger] v[k]@)
}

/// `r` lists exactly the delete targets of `ids`, each once, ascending.
pub open spec fn is_delete_list(ids: Seq<String>, r: Seq<String>) -> bool {
    &&& forall|j: int| 0 <= j < r.len() ==> delete_targets(ids).contains(#[trigger] r[j]@)
    &&& forall|s: Seq<char>| #[trigger]
        delete_targets(ids).contains(s) ==> exists|j: int| 0 <= j < r.len() && r[j]@ == s
    &&& strictly_sorted(r)
}

/// Trims the identifiers, drops the empty ones, puts each in its stored
/// form and removes repetitions. The result holds each target once, in
/// ascending order, whatever order the identifiers came in.
pub fn normalize_delete_ids(ids: Vec<String>) -> (r: Vec<String>)
    ensures
        forall|j: int| 0 <= j < r.len() ==> delete_targets(ids@).contains(#[trigger] r@[j]@),
        forall|s: Seq<char>| #[trigger]
            delete_targets(ids@).contains(s) ==> exists|j: int| 0 <= j < r.len() && r@[j]@ == s,
        forall|j: int, k: int| 0 <= j < k < r.len() ==> seq_lt(#[trigger] r@[j]@, #[trigger] r@[k]@),
{
    let mut out: Vec<String> = Vec::new();
    let mut i: usize = 0;
    while i < ids.len()
        invariant
            i <= ids.len(),
            forall|j: int| 0 <= j < out.len() ==> delete_targets(ids@).contains(#[trigger] out@[j]@),
            forall|m: int|
                0 <= m < i && trim_of(ids@[m]@).len() > 0 ==> exists|j: int|
                    0 <= j < out.len() && out@[j]@ == normalized_id(#[trigger] ids@[m]@),
            strictly_sorted(out@),
        decreases ids.len() - i,
    {
        let ghost before = out@;
        let trimmed = trim(ids[i].as_str());
        if trimmed.unicode_len() > 0 {
            let id = normalize_shape_id(trimmed);
            proof {
                lemma_trim_idempotent(ids@[i as int]@);
                assert(id@ == normalized_id(ids@[i as int]@));
                assert(delete_targets(ids@).contains(id@));
            }
            let mut j: usize = 0;
            while j < out.len() && text_lt(out[j].as_str(), id.as_str())
                invariant
                    j <= out.len(),
                    forall|k: int| 0 <= k < j ==> seq_lt(#[trigger] out@[k]@, id@),
                decreases out.len() - j,
            {
                j = j + 1;
            }
            let present = j < out.len() && out[j] == id;
            if !present {
                proof {
                    if j < out.len() {
                        lemma_seq_lt_total(out@[j as int]@, id@);
                    }
                }
                out.insert(j, id);
                proof {
                    assert forall|p: int, q: int| 0 <= p < q < out.len() implies seq_lt(
                        #[trigger] out@[p]@,
                        #[trigger] out@[q]@,
                    ) by {
                        if p < j && q > j {
                            assert(out@[p] == before[p]);
                            assert(out@[q] == before[q - 1]);
                            assert(seq_lt(before[p]@, before[q - 1]@));
                        } else if p == j && q > j + 1 {
                            assert(out@[q] == before[q - 1]);
                            assert(seq_lt(before[j as int]@, before[q - 1]@));
                            lemma_seq_lt_transitive(out@[j as int]@, before[j as int]@, before[q - 1]@);
                        } else if p == j {
                            assert(out@[q] == before[j as int]);
                        } else if p > j {
                            assert(out@[p] == before[p - 1]);
                            assert(out@[q] == before[q - 1]);
                        } else {
                            assert(out@[p] == before[p]);
                        }
                    }
                    assert forall|k: int| 0 <= k < out.len() implies delete_targets(ids@).contains(
                        #[trigger] out@[k]@,
                    ) by {
                        if k < j {
                            assert(out@[k] == before[k]);
                        } else if k > j {
                            assert(out@[k] == before[k - 1]);
                        }
                    }
                }
            }
            proof {
                assert forall|m: int|
                    0 <= m < i + 1 && trim_of(ids@[m]@).len() > 0 implies exists|w: int|
                        0 <= w < out.len() && out@[w]@ == normalized_id(#[trigger] ids@[m]@) by {
                    if m < i {
                        let w = choose|w: int|
                            0 <= w < before.len() && before[w]@ == normalized_id(ids@[m]@);
                        if present || w < j {
                            assert(out@[w] == before[w]);
                        } else {
                            assert(out@[w + 1] == before[w]);
                        }
                    } else {
                        assert(out@[j as int]@ == id@);
                    }
                }
            }
        }
        i = i + 1;
    }
    out
}

/// The placeholder list of a statement with `n` parameters: `?, ?, ?`.
pub open spec fn placeholders(n: nat) -> Seq<char>
    decreases n,
{
    if n == 0 {
        seq![]
    } else if n == 1 {
        seq!['?']
    } else {
        placeholders((n - 1) as nat) + seq![',', ' ', '?']
    }
}

/// The statement that deletes the rows whose id is any of `n` parameters.
pub open spec fn delete_sql_of(n: nat) -> Seq<char> {
    "DELETE FROM nodes WHERE id IN ("@ + placeholders(n) + ");"@
}

/// Builds the delete statement for `n` identifiers.
pub fn delete_sql(n: usize) -> (r: String)
    requires
        n > 0,
    ensures
        r@ == delete_sql_of(n as nat),
{
    proof {
        reveal_strlit("?");
        reveal_strlit(", ?");
        assert("?"@ =~= seq!['?']);
        assert(", ?"@ =~= seq![',', ' ', '?']);
    }
    let mut list = String::from_str("?");
    let mut k: usize = 1;
    while k < n
        invariant
            1 <= k <= n,
            list@ == placeholders(k as nat),
            ", ?"@ == seq![',', ' ', '?'],
        decreases n - k,
    {
        list.append(", ?");
        assert(list@ =~= placeholders((k + 1) as nat));
        k = k + 1;
    }
    String::from_str("DELETE FROM nodes WHERE id IN (").concat(list.as_str()).concat(");")
}

/// Some given identifier is not empty once trimmed.
pub open spec fn has_target(ids: Seq<String>) -> bool {
    exists|i: int| 0 <= i < ids.len() && trim_of(#[trigger] ids[i]@).len() > 0
}

/// The statement and its parameters for deleting `ids`, or `None` when no
/// identifier is left after normalization and nothing has to run.
pub fn prepare_delete(ids: Vec<String>) -> (r: Option<(String, Vec<String>)>)
    ensures
        r is None <==> !has_target(ids@),
        match r {
            Some((sql, targets)) => {
                &&& sql@ == delete_sql_of(targets.len() as nat)
                &&& forall|j: int|
                    0 <= j < targets.len() ==> delete_targets(ids@).contains(
                        #[trigger] targets@[j]@,
                    )
                &&& forall|s: Seq<char>| #[trigger]
                    delete_targets(ids@).contains(s) ==> exists|j: int|
                        0 <= j < targets.len() && targets@[j]@ == s
                &&& strictly_sorted(targets@)
            },
            None => true,
        },
{
    let ghost given = ids@;
    let targets = normalize_delete_ids(ids);
    if targets.len() == 0 {
        proof {
            if has_target(given) {
                let i = choose|i: int| 0 <= i < given.len() && trim_of(given[i]@).len() > 0;
                assert(delete_targets(given).contains(normalized_id(given[i]@)));
            }
        }
        None
    } else {
        proof {
            let s = targets@[0]@;
            assert(delete_targets(given).contains(s));
        }
        let sql = delete_sql(targets.len());
        assert(forall|s: Seq<char>| #[trigger]
            delete_targets(given).contains(s) ==> exists|j: int|
                0 <= j < targets.len() && targets@[j]@ == s);
        Some((sql, targets))
    }
}

/// Reading back the row that writing a valid payload leaves gives the
/// payload itself, with its identifier in stored form and its kind kept.
pub proof fn lemma_round_trip(p: PayloadView)
    requires
        payload_valid(p),
    ensures
        decoded(stored_row(record_of(p))) == Ok::<Option<NodeView>, DecodeError>(
            Some(record_of(p)),
        ),
        record_of(p).id == normalized_id(p.id),
        Some(record_of(p).node_type) == node_type_of(p.node_type),
        kind_name(record_of(p).node_type) == trim_of(p.node_type),
        record_of(p).x == p.x && record_of(p).y == p.y,
        record_of(p).content == p.content,
        record_of(p).width == p.width && record_of(p).height == p.height,
{
    let t = record_of(p).node_type;
    assert(stored_kind(kind_name(t)) == Some(t));
}

/// Deleting an identifier that normalizes to the stored id of a written
/// payload removes that payload's row, whether or not the identifier
/// carried the namespace.
pub proof fn lemma_delete_removes_written(ids: Seq<String>, i: int, p: PayloadView)
    requires
        payload_valid(p),
        0 <= i < ids.len(),
        trim_of(ids[i]@).len() > 0,
        normalized_id(ids[i]@) == normalized_id(p.id),
    ensures
        delete_targets(ids).contains(record_of(p).id),
{
    assert(delete_targets(ids).contains(normalized_id(ids[i]@)));
}

/// Some element of `v` has the text `s`.
pub open spec fn list_has(v: Seq<String>, s: Seq<char>) -> bool {
    exists|j: int| 0 <= j < v.len() && #[trigger] v[j]@ == s
}

/// Two strictly ascending lists that hold the same identifiers are equal.
pub proof fn lemma_sorted_lists_equal(a: Seq<String>, b: Seq<String>)
    requires
        strictly_sorted(a),
        strictly_sorted(b),
        forall|s: Seq<char>| #[trigger] list_has(a, s) == #[trigger] list_has(b, s),
    ensures
        a.len() == b.len(),
        forall|j: int| 0 <= j < a.len() ==> #[trigger] a[j]@ == b[j]@,
    decreases a.len(),
{
    if a.len() == 0 {
        if b.len() > 0 {
            assert(list_has(b, b[0]@));
            assert(list_has(a, b[0]@));
        }
    } else {
        assert(list_has(a, a[0]@));
        assert(list_has(b, a[0]@));
        let k = choose|k: int| 0 <= k < b.len() && b[k]@ == a[0]@;
        assert(list_has(b, b[0]@));
        assert(list_has(a, b[0]@));
        let l = choose|l: int| 0 <= l < a.len() && a[l]@ == b[0]@;
        if a[0]@ != b[0]@ {
            assert(seq_lt(b[0]@, b[k]@));
            assert(seq_lt(a[0]@, a[l]@));
            lemma_seq_lt_transitive(a[0]@, b[0]@, a[0]@);
            lemma_seq_lt_irreflexive(a[0]@);
        }
        assert(a[0]@ == b[0]@);
        let ta = a.drop_first();
        let tb = b.drop_first();
        assert forall|s: Seq<char>| #[trigger] list_has(ta, s) == #[trigger] list_has(tb, s) by {
            if exists|j: int| 0 <= j < ta.len() && #[trigger] ta[j]@ == s {
                let j = choose|j: int| 0 <= j < ta.len() && #[trigger] ta[j]@ == s;
                assert(a[j + 1]@ == s);
                assert(list_has(a, s));
                assert(list_has(b, s));
                assert(seq_lt(a[0]@, a[j + 1]@));
                lemma_seq_lt_irreflexive(s);
                let m = choose|m: int| 0 <= m < b.len() && b[m]@ == s;
                assert(m != 0);
                assert(tb[m - 1]@ == s);
            }
            if exists|j: int| 0 <= j < tb.len() && #[trigger] tb[j]@ == s {
                let j = choose|j: int| 0 <= j < tb.len() && #[trigger] tb[j]@ == s;
                assert(b[j + 1]@ == s);
                assert(list_has(b, s));
                assert(list_has(a, s));
                assert(seq_lt(b[0]@, b[j + 1]@));
                lemma_seq_lt_irreflexive(s);
                let m = choose|m: int| 0 <= m < a.len() && a[m]@ == s;
                assert(m != 0);
                assert(ta[m - 1]@ == s);
            }
        }
        lemma_sorted_lists_equal(ta, tb);
        assert forall|j: int| 0 <= j < a.len() implies #[trigger] a[j]@ == b[j]@ by {
            if j > 0 {
                assert(ta[j - 1] == a[j]);
                assert(tb[j - 1] == b[j]);
            }
        }
    }
}

/// The identifiers to delete do not depend on the order in which they were
/// given, nor on repetitions: the same identifiers give the same list.
pub proof fn lemma_delete_ids_order_independent(
    ids1: Seq<String>,
    ids2: Seq<String>,
    r1: Seq<String>,
    r2: Seq<String>,
)
    requires
        is_delete_list(ids1, r1),
        is_delete_list(ids2, r2),
        forall|s: Seq<char>| #[trigger] list_has(ids1, s) == #[trigger] list_has(ids2, s),
    ensures
        r1.len() == r2.len(),
        forall|j: int| 0 <= j < r1.len() ==> #[trigger] r1[j]@ == r2[j]@,
{
    assert forall|s: Seq<char>| #[trigger]
        delete_targets(ids1).contains(s) implies delete_targets(ids2).contains(s) by {
        let i = choose|i: int|
            0 <= i < ids1.len() && trim_of(ids1[i]@).len() > 0 && s == normalized_id(ids1[i]@);
        assert(list_has(ids1, ids1[i]@));
        assert(list_has(ids2, ids1[i]@));
        let k = choose|k: int| 0 <= k < ids2.len() && ids2[k]@ == ids1[i]@;
        assert(trim_of(ids2[k]@).len() > 0 && s == normalized_id(ids2[k]@));
    }
    assert forall|s: Seq<char>| #[trigger]
        delete_targets(ids2).contains(s) implies delete_targets(ids1).contains(s) by {
        let i = choose|i: int|
            0 <= i < ids2.len() && trim_of(ids2[i]@).len() > 0 && s == normalized_id(ids2[i]@);
        assert(list_has(ids2, ids2[i]@));
        assert(list_has(ids1, ids2[i]@));
        let k = choose|k: int| 0 <= k < ids1.len() && ids1[k]@ == ids2[i]@;
        assert(trim_of(ids1[k]@).len() > 0 && s == normalized_id(ids1[k]@));
    }
    lemma_sorted_lists_equal(r1, r2);
}

/// Normalizing an already normalized list of identifiers returns it.
pub proof fn lemma_delete_ids_idempotent(ids: Seq<String>, r: Seq<String>, r2: Seq<String>)
    requires
        is_delete_list(ids, r),
        is_delete_list(r, r2),
    ensures
        r2.len() == r.len(),
        forall|j: int| 0 <= j < r.len() ==> #[trigger] r2[j]@ == r[j]@,
{
    assert forall|j: int| 0 <= j < r.len() implies trim_of(#[trigger] r[j]@).len() > 0
        && normalized_id(r[j]@) == r[j]@ by {
        assert(delete_targets(ids).contains(r[j]@));
        let i = choose|i: int|
            0 <= i < ids.len() && trim_of(ids[i]@).len() > 0 && r[j]@ == normalized_id(ids[i]@);
        lemma_normalized_id_idempotent(ids[i]@);
    }
    assert forall|s: Seq<char>| #[trigger] list_has(r, s) == #[trigger] list_has(r2, s) by {
        if exists|j: int| 0 <= j < r.len() && #[trigger] r[j]@ == s {
            let j = choose|j: int| 0 <= j < r.len() && #[trigger] r[j]@ == s;
            assert(trim_of(r[j]@).len() > 0 && normalized_id(r[j]@) == r[j]@);
            assert(delete_targets(r).contains(s));
        }
        if exists|j: int| 0 <= j < r2.len() && #[trigger] r2[j]@ == s {
            let j = choose|j: int| 0 <= j < r2.len() && #[trigger] r2[j]@ == s;
            assert(delete_targets(r).contains(r2[j]@));
            let i = choose|i: int|
                0 <= i < r.len() && trim_of(r[i]@).len() > 0 && s == normalized_id(r[i]@);
            assert(trim_of(r[i]@).len() > 0 && normalized_id(r[i]@) == r[i]@);
        }
    }
    lemma_sorted_lists_equal(r, r2);
}

} // verus!
