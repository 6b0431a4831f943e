//! The sums of many agents over a span of time, in equal buckets.
use crate::access::DatabaseBackend;
use crate::error::{NodegetError, NodegetErrorView};
use crate::text::{int_text, joined, u64_text};
use vstd::prelude::*;
use vstd::string::*;

verus! {

/// The statement up to the sums of the fields.
pub const SQL_HEAD: &'static str = "
WITH buckets AS (
    SELECT generate_series(0, $3::bigint - 1) AS b
),
raw AS (
    SELECT
        GREATEST(0, LEAST($3::bigint - 1,
            FLOOR(
                (timestamp::float8 - $1::float8) * $3::float8
                / ($2::float8 - $1::float8)
            )::bigint
        )) AS b,
        COUNT(*) AS record_count";

/// The statement from the sums of the fields to the agents.
pub const SQL_FROM: &'static str = "
    FROM dynamic_monitoring_summary
    WHERE uuid_id IN (";

/// The statement from the agents to the selected fields.
pub const SQL_MERGED: &'static str = ")
      AND timestamp >= $1
      AND timestamp <= $2
    GROUP BY 1
),
merged AS (
    SELECT
        bkt.b,
        ($1::float8 + (bkt.b::float8 + 0.5) * ($2::float8 - $1::float8) / $3::float8)::bigint AS t,
        COALESCE(raw.record_count, 0) AS count";

/// The statement from the selected fields to the members of the answer.
pub const SQL_OBJECTS: &'static str = "
    FROM buckets bkt
    LEFT JOIN raw ON bkt.b = raw.b
)
SELECT COALESCE(
    jsonb_agg(
        jsonb_build_object('t', t, 'count', count";

/// The statement behind the members of the answer.
pub const SQL_TAIL: &'static str = ")
        ORDER BY b
    ),
    '[]'::jsonb
) AS data
FROM merged
";

/// A field of the summaries, as a statement speaks of it.
pub struct SummaryColumn {
    /// The column that holds it.
    pub column_name: String,
    /// The member of the answer that holds it.
    pub json_key: String,
    /// Whether the column holds ten times the value.
    pub is_scaled: bool,
}

pub struct SummaryColumnView {
    pub column_name: Seq<char>,
    pub json_key: Seq<char>,
    pub is_scaled: bool,
}

impl View for SummaryColumn {
    type V = SummaryColumnView;

    open spec fn view(&self) -> SummaryColumnView {
        SummaryColumnView {
            column_name: self.column_name@,
            json_key: self.json_key@,
            is_scaled: self.is_scaled,
        }
    }
}

/// The views of fields, in order.
pub open spec fn columns_view(fields: Seq<SummaryColumn>) -> Seq<SummaryColumnView> {
    fields.map_values(|field: SummaryColumn| field@)
}

/// A value that a statement is run with.
#[derive(Clone, Copy, Debug, PartialEq, Eq, Structural)]
pub enum SqlValue {
    BigInt(i64),
    SmallInt(i16),
}

/// A statement and the values it is run with: the first for `$1`, and so on.
pub struct BucketsStatement {
    pub sql: String,
    pub values: Vec<SqlValue>,
}

pub struct BucketsStatementView {
    pub sql: Seq<char>,
    pub values: Seq<SqlValue>,
}

impl View for BucketsStatement {
    type V = BucketsStatementView;

    open spec fn view(&self) -> BucketsStatementView {
        BucketsStatementView { sql: self.sql@, values: self.values@ }
    }
}

/// The sum of a field over the records of a bucket, scaled back where the column is scaled.
pub open spec fn field_aggregate(field: SummaryColumnView) -> Seq<char> {
    if field.is_scaled {
        ",\n        SUM("@ + field.column_name + ")::double precision / 10.0 AS "@ + field.column_name
    } else {
        ",\n        SUM("@ + field.column_name + ")::double precision AS "@ + field.column_name
    }
}

/// A field taken over into the merged buckets.
pub open spec fn field_select(field: SummaryColumnView) -> Seq<char> {
    ",\n        raw."@ + field.column_name
}

/// A field as a member of the answer.
pub open spec fn json_field(field: SummaryColumnView) -> Seq<char> {
    ", '"@ + field.json_key + "', "@ + field.column_name
}

/// The sums of all fields, in order.
pub open spec fn field_aggregates(fields: Seq<SummaryColumnView>) -> Seq<char>
    decreases fields.len(),
{
    if fields.len() == 0 {
        Seq::empty()
    } else {
        field_aggregates(fields.drop_last()) + field_aggregate(fields.last())
    }
}

/// All fields taken over, in order.
pub open spec fn field_selects(fields: Seq<SummaryColumnView>) -> Seq<char>
    decreases fields.len(),
{
    if fields.len() == 0 {
        Seq::empty()
    } else {
        field_selects(fields.drop_last()) + field_select(fields.last())
    }
}

/// All fields as members of the answer, in order.
pub open spec fn json_fields(fields: Seq<SummaryColumnView>) -> Seq<char>
    decreases fields.len(),
{
    if fields.len() == 0 {
        Seq::empty()
    } else {
        json_fields(fields.drop_last()) + json_field(fields.last())
    }
}

/// The whole statement.
pub open spec fn buckets_sql(fields: Seq<SummaryColumnView>, placeholders: Seq<char>) -> Seq<char> {
    SQL_HEAD@ + field_aggregates(fields) + SQL_FROM@ + placeholders + SQL_MERGED@ + field_selects(
        fields,
    ) + SQL_OBJECTS@ + json_fields(fields) + SQL_TAIL@
}

/// The text that builds the statement of the given fields for the agents at the placeholders.
pub fn build_sql(fields: &Vec<SummaryColumn>, uuid_placeholders: &str) -> (sql: String)
    ensures
        sql@ == buckets_sql(columns_view(fields@), uuid_placeholders@),
{
    let ghost all = columns_view(fields@);
    let mut aggregates = String::new();
    let mut selects = String::new();
    let mut members = String::new();
    for i in 0..fields.len()
        invariant
            all == columns_view(fields@),
            aggregates@ == field_aggregates(all.take(i as int)),
            selects@ == field_selects(all.take(i as int)),
            members@ == json_fields(all.take(i as int)),
    {
        let field = &fields[i];
        let ghost view = field@;
        aggregates.append(",\n        SUM(");
        aggregates.append(field.column_name.as_str());
        if field.is_scaled {
            aggregates.append(")::double precision / 10.0 AS ");
        } else {
            aggregates.append(")::double precision AS ");
        }
        aggregates.append(field.column_name.as_str());
        selects.append(",\n        raw.");
        selects.append(field.column_name.as_str());
        members.append(", '");
        members.append(field.json_key.as_str());
        members.append("', ");
        members.append(field.column_name.as_str());
        proof {
            assert(all.take(i + 1).drop_last() =~= all.take(i as int));
            assert(all.take(i + 1).last() == view);
            assert(aggregates@ =~= field_aggregates(all.take(i as int)) + field_aggregate(view));
            assert(selects@ =~= field_selects(all.take(i as int)) + field_select(view));
            assert(members@ =~= json_fields(all.take(i as int)) + json_field(view));
        }
    }
    assert(all.take(all.len() as int) =~= all);
    let mut sql = String::from_str(SQL_HEAD);
    sql.append(aggregates.as_str());
    sql.append(SQL_FROM);
    sql.append(uuid_placeholders);
    sql.append(SQL_MERGED);
    sql.append(selects.as_str());
    sql.append(SQL_OBJECTS);
    sql.append(members.as_str());
    sql.append(SQL_TAIL);
    sql
}

/// The placeholder of the agent with the given index: the first three belong to the span of time
/// and the number of buckets.
pub open spec fn placeholder(i: int) -> Seq<char> {
    "$"@ + int_text(i + 4)
}

/// The placeholders of `n` agents.
pub open spec fn placeholders_text(n: nat) -> Seq<char> {
    joined(Seq::new(n, |i: int| placeholder(i)), ", "@)
}

/// The placeholders of `n` agents, separated by commas.
pub fn uuid_placeholders(n: usize) -> (text: String)
    requires
        n <= usize::MAX - 4,
    ensures
        text@ == placeholders_text(n as nat),
{
    let mut text = String::new();
    for i in 0..n
        invariant
            n <= usize::MAX - 4,
            text@ == placeholders_text(i as nat),
    {
        let ghost before = Seq::new(i as nat, |k: int| placeholder(k));
        let ghost after = Seq::new((i + 1) as nat, |k: int| placeholder(k));
        assert(after.drop_last() =~= before);
        if i > 0 {
            text.append(", ");
        }
        text.append("$");
        text.append(u64_text(i as u64 + 4).as_str());
        assert(text@ =~= placeholders_text((i + 1) as nat));
    }
    text
}

/// What a database other than PostgreSQL is answered.
pub open spec fn postgres_only() -> NodegetErrorView {
    NodegetErrorView::InvalidInput(
        "agent_query_dynamic_summary_buckets_multi only supports PostgreSQL"@,
    )
}

/// Refuses a database other than PostgreSQL.
pub fn ensure_postgres(backend: DatabaseBackend) -> (r: Result<(), NodegetError>)
    ensures
        r is Ok <==> backend == DatabaseBackend::Postgres,
        r matches Err(e) ==> e@ == postgres_only(),
{
    match backend {
        DatabaseBackend::Postgres => Ok(()),
        _ => Err(
            NodegetError::InvalidInput(
                "agent_query_dynamic_summary_buckets_multi only supports PostgreSQL".to_owned(),
            ),
        ),
    }
}

/// The values that the statement is run with.
pub open spec fn buckets_values(from: i64, to: i64, buckets: i64, ids: Seq<i16>) -> Seq<SqlValue> {
    seq![SqlValue::BigInt(from), SqlValue::BigInt(to), SqlValue::BigInt(buckets)] + ids.map_values(
        |id: i16| SqlValue::SmallInt(id),
    )
}

/// The statement of a query, or why there is none: a number of buckets that the database cannot
/// hold.
pub open spec fn buckets_statement(
    fields: Seq<SummaryColumnView>,
    from: i64,
    to: i64,
    buckets: u64,
    ids: Seq<i16>,
) -> Result<BucketsStatementView, NodegetErrorView> {
    if buckets > i64::MAX {
        Err(NodegetErrorView::InvalidInput("buckets value too large"@))
    } else {
        Ok(
            BucketsStatementView {
                sql: buckets_sql(fields, placeholders_text(ids.len())),
                values: buckets_values(from, to, buckets as i64, ids),
            },
        )
    }
}

/// The statement of a query for the agents with the given numbers.
pub fn plan_statement(
    fields: &Vec<SummaryColumn>,
    from: i64,
    to: i64,
    buckets: u64,
    ids: &Vec<i16>,
) -> (r: Result<BucketsStatement, NodegetError>)
    requires
        ids@.len() <= usize::MAX - 4,
    ensures
        match buckets_statement(columns_view(fields@), from, to, buckets, ids@) {
            Ok(statement) => r is Ok && r->Ok_0@ == statement,
            Err(error) => r is Err && r->Err_0@ == error,
        },
{
    if buckets > i64::MAX as u64 {
        return Err(NodegetError::InvalidInput("buckets value too large".to_owned()));
    }
    let placeholders = uuid_placeholders(ids.len());
    let sql = build_sql(fields, placeholders.as_str());
    let mut values: Vec<SqlValue> = Vec::with_capacity(ids.len());
    values.push(SqlValue::BigInt(from));
    values.push(SqlValue::BigInt(to));
    values.push(SqlValue::BigInt(buckets as i64));
    assert(values@ =~= buckets_values(from, to, buckets as i64, ids@.take(0)));
    for i in 0..ids.len()
        invariant
            values@ == buckets_values(from, to, buckets as i64, ids@.take(i as int)),
    {
        values.push(SqlValue::SmallInt(ids[i]));
        assert(ids@.take(i + 1) =~= ids@.take(i as int).push(ids@[i as int]));
        assert(values@ =~= buckets_values(from, to, buckets as i64, ids@.take(i + 1)));
    }
    assert(ids@.take(ids@.len() as int) =~= ids@);
    Ok(BucketsStatement { sql, values })
}

/// Each agent's placeholder stands for that agent's number, and the first three placeholders for
/// the span of time and the number of buckets. The number of a placeholder counts from one.
pub proof fn law_placeholders_name_their_values(
    from: i64,
    to: i64,
    buckets: i64,
    ids: Seq<i16>,
    i: int,
)
    requires
        0 <= i < ids.len(),
    ensures
        placeholder(i) == "$"@ + int_text(i + 4),
        buckets_values(from, to, buckets, ids).len() == 3 + ids.len(),
        buckets_values(from, to, buckets, ids)[1 - 1] == SqlValue::BigInt(from),
        buckets_values(from, to, buckets, ids)[2 - 1] == SqlValue::BigInt(to),
        buckets_values(from, to, buckets, ids)[3 - 1] == SqlValue::BigInt(buckets),
        buckets_values(from, to, buckets, ids)[(i + 4) - 1] == SqlValue::SmallInt(ids[i]),
{
}

proof fn lemma_fields_one_by_one(fields: Seq<SummaryColumnView>)
    ensures
        field_aggregates(fields) == joined(
            Seq::new(fields.len(), |i: int| field_aggregate(fields[i])),
            Seq::empty(),
        ),
        field_selects(fields) == joined(
            Seq::new(fields.len(), |i: int| field_select(fields[i])),
            Seq::empty(),
        ),
        json_fields(fields) == joined(
            Seq::new(fields.len(), |i: int| json_field(fields[i])),
            Seq::empty(),
        ),
    decreases fields.len(),
{
    if fields.len() > 0 {
        let front = fields.drop_last();
        lemma_fields_one_by_one(front);
        let sums = Seq::new(fields.len(), |i: int| field_aggregate(fields[i]));
        let selects = Seq::new(fields.len(), |i: int| field_select(fields[i]));
        let members = Seq::new(fields.len(), |i: int| json_field(fields[i]));
        assert(sums.drop_last() =~= Seq::new(front.len(), |i: int| field_aggregate(front[i])));
        assert(selects.drop_last() =~= Seq::new(front.len(), |i: int| field_select(front[i])));
        assert(members.drop_last() =~= Seq::new(front.len(), |i: int| json_field(front[i])));
        assert(field_aggregates(fields) =~= joined(sums, Seq::empty()));
        assert(field_selects(fields) =~= joined(selects, Seq::empty()));
        assert(json_fields(fields) =~= joined(members, Seq::empty()));
    }
}

/// The statement is made of its fields, each in its place and by itself: behind the count the sum of
/// every field, divided by ten exactly if the field is scaled, wherever it stands; then the agents;
/// then every field once more, and at last every field under its key.
pub proof fn law_statement_is_made_of_its_fields(
    fields: Seq<SummaryColumnView>,
    placeholders: Seq<char>,
)
    ensures
        buckets_sql(fields, placeholders) == SQL_HEAD@ + joined(
            Seq::new(
                fields.len(),
                |i: int|
                    ",\n        SUM("@ + fields[i].column_name + (if fields[i].is_scaled {
                        ")::double precision / 10.0 AS "@
                    } else {
                        ")::double precision AS "@
                    }) + fields[i].column_name,
            ),
            Seq::empty(),
        ) + SQL_FROM@ + placeholders + SQL_MERGED@ + joined(
            Seq::new(fields.len(), |i: int| ",\n        raw."@ + fields[i].column_name),
            Seq::empty(),
        ) + SQL_OBJECTS@ + joined(
            Seq::new(
                fields.len(),
                |i: int| ", '"@ + fields[i].json_key + "', "@ + fields[i].column_name,
            ),
            Seq::empty(),
        ) + SQL_TAIL@,
{
    lemma_fields_one_by_one(fields);
    assert(Seq::new(
        fields.len(),
        |i: int|
            ",\n        SUM("@ + fields[i].column_name + (if fields[i].is_scaled {
                ")::double precision / 10.0 AS "@
            } else {
                ")::double precision AS "@
            }) + fields[i].column_name,
    ) =~= Seq::new(fields.len(), |i: int| field_aggregate(fields[i])));
    assert(Seq::new(fields.len(), |i: int| ",\n        raw."@ + fields[i].column_name)
        =~= Seq::new(fields.len(), |i: int| field_select(fields[i])));
    assert(Seq::new(
        fields.len(),
        |i: int| ", '"@ + fields[i].json_key + "', "@ + fields[i].column_name,
    ) =~= Seq::new(fields.len(), |i: int| json_field(fields[i])));
}

/// A query is run with its span of time, its number of buckets and the numbers of its agents, each for
/// the placeholder that stands for it; with more buckets than a signed number can count it is refused.
pub proof fn law_statement_of_a_query(
    fields: Seq<SummaryColumnView>,
    from: i64,
    to: i64,
    buckets: u64,
    ids: Seq<i16>,
)
    ensures
        buckets > i64::MAX ==> buckets_statement(fields, from, to, buckets, ids) == Err::<
            BucketsStatementView,
            NodegetErrorView,
        >(NodegetErrorView::InvalidInput("buckets value too large"@)),
        buckets <= i64::MAX ==> {
            &&& buckets_statement(fields, from, to, buckets, ids) is Ok
            &&& ({
                let statement = buckets_statement(fields, from, to, buckets, ids)->Ok_0;
                &&& statement.sql == buckets_sql(
                    fields,
                    joined(Seq::new(ids.len(), |i: int| "$"@ + int_text(i + 4)), ", "@),
                )
                &&& statement.values.len() == ids.len() + 3
                &&& statement.values[0] == SqlValue::BigInt(from)
                &&& statement.values[1] == SqlValue::BigInt(to)
                &&& statement.values[2] matches SqlValue::BigInt(n) && n == buckets
                &&& forall|i: int|
                    0 <= i < ids.len() ==> statement.values[i + 3] == SqlValue::SmallInt(
                        #[trigger] ids[i],
                    )
            })
        },
{
    assert(Seq::new(ids.len(), |i: int| "$"@ + int_text(i + 4)) =~= Seq::new(
        ids.len(),
        |i: int| placeholder(i),
    ));
}

/// Only PostgreSQL is accepted.
pub proof fn law_only_postgres_sums_in_buckets()
    ensures
        postgres_only() == NodegetErrorView::InvalidInput(
            "agent_query_dynamic_summary_buckets_multi only supports PostgreSQL"@,
        ),
{
}

/// Fields are taken one for one and in order, each with its column, its key and its scale, and a
/// statement holds its text and its values.
pub proof fn law_fields_are_taken_as_they_are(
    fields: Seq<SummaryColumn>,
    i: int,
    statement: BucketsStatement,
)
    ensures
        columns_view(fields).len() == fields.len(),
        0 <= i < fields.len() ==> {
            &&& columns_view(fields)[i].column_name == fields[i].column_name@
            &&& columns_view(fields)[i].json_key == fields[i].json_key@
            &&& columns_view(fields)[i].is_scaled == fields[i].is_scaled
        },
        statement@.sql == statement.sql@,
        statement@.values == statement.values@,
{
}

/// A further field adds its own sum, its own selection and its own member behind those of the fields
/// before it, whatever these are.
pub proof fn law_a_further_field_adds_its_own_parts(
    fields: Seq<SummaryColumnView>,
    field: SummaryColumnView,
)
    ensures
        field_aggregates(Seq::empty()) == Seq::<char>::empty(),
        field_selects(Seq::empty()) == Seq::<char>::empty(),
        json_fields(Seq::empty()) == Seq::<char>::empty(),
        field_aggregates(fields.push(field)) == field_aggregates(fields) + (if field.is_scaled {
            ",\n        SUM("@ + field.column_name + ")::double precision / 10.0 AS "@
                + field.column_name
        } else {
            ",\n        SUM("@ + field.column_name + ")::double precision AS "@ + field.column_name
        }),
        field_selects(fields.push(field)) == field_selects(fields) + (",\n        raw."@
            + field.column_name),
        json_fields(fields.push(field)) == json_fields(fields) + (", '"@ + field.json_key + "', "@
            + field.column_name),
{
    assert(fields.push(field).drop_last() =~= fields);
}

} // verus!
