use vstd::prelude::*;
use crate::text::same_text;

verus! {

/// Creates the node table in its current layout when it does not exist.
pub const CREATE_TABLE_SQL: &'static str = "CREATE TABLE IF NOT EXISTS nodes (
            id TEXT PRIMARY KEY,
            type TEXT NOT NULL,
            x REAL NOT NULL,
            y REAL NOT NULL,
            content TEXT NOT NULL,
            width REAL,
            height REAL,
            updated_at INTEGER NOT NULL DEFAULT 0
        );";

/// Lists the live columns of the node table, one row per column.
pub const TABLE_INFO_SQL: &'static str = "PRAGMA table_info(nodes);";

/// The index that supports listing by kind and write time.
pub const CREATE_INDEX_SQL: &'static str =
    "CREATE INDEX IF NOT EXISTS idx_nodes_type_updated_at ON nodes(type, updated_at);";

/// `c` with a Windows path separator turned into a forward slash.
pub open spec fn slash(c: char) -> char {
    if c == '\\' {
        '/'
    } else {
        c
    }
}

/// The connection string of the database file at `path`, which creates the
/// file when it is missing.
pub open spec fn sqlite_url_of(path: Seq<char>) -> Seq<char> {
    "sqlite://"@ + path.map_values(|c: char| slash(c)) + "?mode=rwc"@
}

/// Builds the connection string for the database file at `path`.
pub fn sqlite_url_from_path(path: &str) -> (r: String)
    ensures
        r@ == sqlite_url_of(path@),
{
    proof { reveal_strlit("/"); }
    let n = path.unicode_len();
    let mut url = String::from_str("sqlite://");
    let mut i: usize = 0;
    while i < n
        invariant
            n == path@.len(),
            i <= n,
            url@ == "sqlite://"@ + path@.take(i as int).map_values(|c: char| slash(c)),
            "/"@ == seq!['/'],
        decreases n - i,
    {
        let c = path.get_char(i);
        if c == '\\' {
            url.append("/");
        } else {
            url.append(path.substring_char(i, i + 1));
        }
        assert(path@.take(i + 1).map_values(|c: char| slash(c)) =~= path@.take(i as int).map_values(
            |c: char| slash(c),
        ).push(slash(c)));
        i = i + 1;
    }
    assert(path@.take(n as int) == path@);
    url.concat("?mode=rwc")
}

/// The text values of a list of strings.
pub open spec fn texts_of(v: Seq<String>) -> Seq<Seq<char>> {
    v.map_values(|s: String| s@)
}

/// Whether a column called `name` is among `cols`.
pub open spec fn has_column(cols: Seq<Seq<char>>, name: Seq<char>) -> bool {
    exists|i: int| 0 <= i < cols.len() && cols[i] == name
}

/// The statement that appends a column to the node table.
pub open spec fn alter_sql(name: Seq<char>, definition: Seq<char>) -> Seq<char> {
    "ALTER TABLE nodes ADD COLUMN "@ + name + " "@ + definition + ";"@
}

/// The statements that one column needs: none when it is present.
pub open spec fn column_steps(
    cols: Seq<Seq<char>>,
    name: Seq<char>,
    definition: Seq<char>,
) -> Seq<Seq<char>> {
    if has_column(cols, name) {
        seq![]
    } else {
        seq![alter_sql(name, definition)]
    }
}

/// The names that one column adds: none when it is present.
pub open spec fn column_added(cols: Seq<Seq<char>>, name: Seq<char>) -> Seq<Seq<char>> {
    if has_column(cols, name) {
        seq![]
    } else {
        seq![name]
    }
}

/// The additive statements that bring a table with columns `cols` to the
/// current layout: width, height and write time, each only when absent.
pub open spec fn migration_plan_of(cols: Seq<Seq<char>>) -> Seq<Seq<char>> {
    column_steps(cols, "width"@, "REAL"@) + column_steps(cols, "height"@, "REAL"@)
        + column_steps(cols, "updated_at"@, "INTEGER NOT NULL DEFAULT 0"@)
}

/// The columns of the table after the plan for `cols` has run.
pub open spec fn migrated_columns(cols: Seq<Seq<char>>) -> Seq<Seq<char>> {
    cols + column_added(cols, "width"@) + column_added(cols, "height"@) + column_added(
        cols,
        "updated_at"@,
    )
}

/// Decides whether column `name` must be added, and with which statement.
pub fn column_migration(existing: &Vec<String>, name: &str, definition: &str) -> (r: Option<
    String,
>)
    ensures
        r is None <==> has_column(texts_of(existing@), name@),
        match r {
            Some(sql) => sql@ == alter_sql(name@, definition@),
            None => true,
        },
{
    let mut i: usize = 0;
    while i < existing.len()
        invariant
            i <= existing.len(),
            forall|k: int| 0 <= k < i ==> existing@[k]@ != name@,
        decreases existing.len() - i,
    {
        if same_text(existing[i].as_str(), name) {
            assert(texts_of(existing@)[i as int] == name@);
            return None;
        }
        i = i + 1;
    }
    proof {
        if has_column(texts_of(existing@), name@) {
            let k = choose|k: int|
                0 <= k < texts_of(existing@).len() && texts_of(existing@)[k] == name@;
            assert(existing@[k]@ == name@);
        }
    }
    Some(
        String::from_str("ALTER TABLE nodes ADD COLUMN ").concat(name).concat(" ").concat(
            definition,
        ).concat(";"),
    )
}

fn push_step(plan: &mut Vec<String>, step: Option<String>)
    ensures
        texts_of(final(plan)@) == texts_of(old(plan)@) + match step {
            Some(sql) => seq![sql@],
            None => seq![],
        },
{
    match step {
        Some(sql) => {
            plan.push(sql);
        },
        None => {},
    }
    assert(texts_of(final(plan)@) =~= texts_of(old(plan)@) + match step {
        Some(sql) => seq![sql@],
        None => seq![],
    });
}

/// The statements, in order, that migrate a table whose live columns are
/// `existing`; empty when the table is current.
pub fn migration_plan(existing: &Vec<String>) -> (r: Vec<String>)
    ensures
        texts_of(r@) == migration_plan_of(texts_of(existing@)),
{
    let mut plan: Vec<String> = Vec::new();
    let width = column_migration(existing, "width", "REAL");
    push_step(&mut plan, width);
    let height = column_migration(existing, "height", "REAL");
    push_step(&mut plan, height);
    let updated = column_migration(existing, "updated_at", "INTEGER NOT NULL DEFAULT 0");
    push_step(&mut plan, updated);
    assert(texts_of(plan@) =~= migration_plan_of(texts_of(existing@)));
    plan
}

proof fn lemma_added_present(cols: Seq<Seq<char>>, more: Seq<Seq<char>>, name: Seq<char>)
    requires
        forall|i: int| 0 <= i < cols.len() ==> #[trigger] more[i] == cols[i],
        cols.len() <= more.len(),
        has_column(cols, name) || more.contains(name),
    ensures
        has_column(more, name),
{
    if has_column(cols, name) {
        let k = choose|k: int| 0 <= k < cols.len() && cols[k] == name;
        assert(more[k] == name);
    }
}

/// Migration is idempotent: once the plan for a table has run, planning
/// again yields no statement, and the columns stay as they are.
pub proof fn lemma_migration_idempotent(cols: Seq<Seq<char>>)
    ensures
        migration_plan_of(migrated_columns(cols)) == Seq::<Seq<char>>::empty(),
        migrated_columns(migrated_columns(cols)) == migrated_columns(cols),
{
    let m = migrated_columns(cols);
    let a = column_added(cols, "width"@);
    let b = column_added(cols, "height"@);
    let c = column_added(cols, "updated_at"@);
    assert(m == cols + a + b + c);
    if !has_column(cols, "width"@) {
        assert(m[cols.len() as int] == "width"@);
    }
    if !has_column(cols, "height"@) {
        assert(m[(cols.len() + a.len()) as int] == "height"@);
    }
    if !has_column(cols, "updated_at"@) {
        assert(m[(cols.len() + a.len() + b.len()) as int] == "updated_at"@);
    }
    lemma_added_present(cols, m, "width"@);
    lemma_added_present(cols, m, "height"@);
    lemma_added_present(cols, m, "updated_at"@);
    assert(migration_plan_of(m) =~= Seq::<Seq<char>>::empty());
    assert(migrated_columns(m) =~= m);
}

} // verus!
