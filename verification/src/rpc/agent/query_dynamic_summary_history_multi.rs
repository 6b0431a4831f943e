//! The single summaries of many agents over a span of time.
use vstd::prelude::*;

verus! {

/// How many records a query returns at most for each agent that it names.
pub const ROWS_PER_AGENT: u64 = 1_000;

/// How many records a query returns at most.
pub const MAX_LIMIT: u64 = 50_000;

/// A field of the summaries.
#[derive(Clone, Copy, Debug, PartialEq, Eq, Structural)]
pub enum DynamicSummaryQueryField {
    CpuUsage,
    GpuUsage,
    UsedSwap,
    TotalSwap,
    UsedMemory,
    TotalMemory,
    AvailableMemory,
    LoadOne,
    LoadFive,
    LoadFifteen,
    Uptime,
    BootTime,
    ProcessCount,
    TotalSpace,
    AvailableSpace,
    ReadSpeed,
    WriteSpeed,
    TcpConnections,
    UdpConnections,
    TotalReceived,
    TotalTransmitted,
    TransmitSpeed,
    ReceiveSpeed,
}

/// A column of a query for summaries.
#[derive(Clone, Copy, Debug, PartialEq, Eq, Structural)]
pub enum SummarySelection {
    /// The number of the agent.
    UuidId,
    /// The moment of the record.
    Timestamp,
    /// A field of the record.
    Field(DynamicSummaryQueryField),
}

/// An end of a span.
#[derive(Clone, Copy, Debug, PartialEq, Eq, Structural)]
pub enum SpanEnd {
    Included(i64),
    Excluded(i64),
}

/// A span of the values of a column.
#[derive(Clone, Copy, Debug, PartialEq, Eq, Structural)]
pub struct ColumnSpan {
    pub column: SummarySelection,
    pub from: SpanEnd,
    pub to: SpanEnd,
}

/// Which way values are ordered.
#[derive(Clone, Copy, Debug, PartialEq, Eq, Structural)]
pub enum SortDirection {
    Ascending,
    Descending,
}

/// An order by the values of a column.
#[derive(Clone, Copy, Debug, PartialEq, Eq, Structural)]
pub struct RowOrder {
    pub column: SummarySelection,
    pub direction: SortDirection,
}

/// Which records a query selects, and what of them: those of the agents with the given numbers in
/// the span, in the order, as many as the limit allows.
pub struct HistorySelect {
    pub columns: Vec<SummarySelection>,
    pub uuid_ids: Vec<i16>,
    pub span: ColumnSpan,
    pub order: RowOrder,
    pub limit: u64,
}

pub struct HistorySelectView {
    pub columns: Seq<SummarySelection>,
    pub uuid_ids: Seq<i16>,
    pub span: ColumnSpan,
    pub order: RowOrder,
    pub limit: u64,
}

impl View for HistorySelect {
    type V = HistorySelectView;

    open spec fn view(&self) -> HistorySelectView {
        HistorySelectView {
            columns: self.columns@,
            uuid_ids: self.uuid_ids@,
            span: self.span,
            order: self.order,
            limit: self.limit,
        }
    }
}

/// All fields, in the order in which they are selected.
pub open spec fn every_field() -> Seq<DynamicSummaryQueryField> {
    seq![
        DynamicSummaryQueryField::CpuUsage,
        DynamicSummaryQueryField::GpuUsage,
        DynamicSummaryQueryField::UsedSwap,
        DynamicSummaryQueryField::TotalSwap,
        DynamicSummaryQueryField::UsedMemory,
        DynamicSummaryQueryField::TotalMemory,
        DynamicSummaryQueryField::AvailableMemory,
        DynamicSummaryQueryField::LoadOne,
        DynamicSummaryQueryField::LoadFive,
        DynamicSummaryQueryField::LoadFifteen,
        DynamicSummaryQueryField::Uptime,
        DynamicSummaryQueryField::BootTime,
        DynamicSummaryQueryField::ProcessCount,
        DynamicSummaryQueryField::TotalSpace,
        DynamicSummaryQueryField::AvailableSpace,
        DynamicSummaryQueryField::ReadSpeed,
        DynamicSummaryQueryField::WriteSpeed,
        DynamicSummaryQueryField::TcpConnections,
        DynamicSummaryQueryField::UdpConnections,
        DynamicSummaryQueryField::TotalReceived,
        DynamicSummaryQueryField::TotalTransmitted,
        DynamicSummaryQueryField::TransmitSpeed,
        DynamicSummaryQueryField::ReceiveSpeed,
    ]
}

/// `columns` with the given fields behind them.
pub open spec fn with_fields(
    columns: Seq<SummarySelection>,
    fields: Seq<DynamicSummaryQueryField>,
) -> Seq<SummarySelection> {
    columns + fields.map_values(|field: DynamicSummaryQueryField| SummarySelection::Field(field))
}

/// The selected columns: the agent and the moment, then the given fields, or all fields if none is
/// given.
pub open spec fn selected_columns(fields: Seq<DynamicSummaryQueryField>) -> Seq<SummarySelection> {
    with_fields(
        seq![SummarySelection::UuidId, SummarySelection::Timestamp],
        if fields.len() == 0 {
            every_field()
        } else {
            fields
        },
    )
}

/// How many records a query for `agents` agents returns at most.
pub open spec fn row_cap(agents: nat) -> nat {
    if agents * 1_000 <= 50_000 {
        agents * 1_000
    } else {
        50_000
    }
}

/// The selection of a query.
pub open spec fn history_select(
    fields: Seq<DynamicSummaryQueryField>,
    ids: Seq<i16>,
    from: i64,
    to: i64,
) -> HistorySelectView {
    HistorySelectView {
        columns: selected_columns(fields),
        uuid_ids: ids,
        span: ColumnSpan {
            column: SummarySelection::Timestamp,
            from: SpanEnd::Included(from),
            to: SpanEnd::Included(to),
        },
        order: RowOrder {
            column: SummarySelection::Timestamp,
            direction: SortDirection::Ascending,
        },
        limit: row_cap(ids.len()) as u64,
    }
}

/// Adds the given fields to a selection, in order.
fn add_columns(
    columns: Vec<SummarySelection>,
    fields: &Vec<DynamicSummaryQueryField>,
) -> (r: Vec<SummarySelection>)
    ensures
        r@ == with_fields(columns@, fields@),
{
    let mut r = columns;
    assert(r@ =~= with_fields(columns@, fields@.take(0)));
    for i in 0..fields.len()
        invariant
            r@ == with_fields(columns@, fields@.take(i as int)),
    {
        r.push(SummarySelection::Field(fields[i]));
        assert(fields@.take(i + 1) =~= fields@.take(i as int).push(fields@[i as int]));
        assert(r@ =~= with_fields(columns@, fields@.take(i + 1)));
    }
    assert(fields@.take(fields@.len() as int) =~= fields@);
    r
}

/// Adds all fields to a selection.
pub fn add_all_columns(columns: Vec<SummarySelection>) -> (r: Vec<SummarySelection>)
    ensures
        r@ == with_fields(columns@, every_field()),
{
    let fields: Vec<DynamicSummaryQueryField> = vec![
        DynamicSummaryQueryField::CpuUsage,
        DynamicSummaryQueryField::GpuUsage,
        DynamicSummaryQueryField::UsedSwap,
        DynamicSummaryQueryField::TotalSwap,
        DynamicSummaryQueryField::UsedMemory,
        DynamicSummaryQueryField::TotalMemory,
        DynamicSummaryQueryField::AvailableMemory,
        DynamicSummaryQueryField::LoadOne,
        DynamicSummaryQueryField::LoadFive,
        DynamicSummaryQueryField::LoadFifteen,
        DynamicSummaryQueryField::Uptime,
        DynamicSummaryQueryField::BootTime,
        DynamicSummaryQueryField::ProcessCount,
        DynamicSummaryQueryField::TotalSpace,
        DynamicSummaryQueryField::AvailableSpace,
        DynamicSummaryQueryField::ReadSpeed,
        DynamicSummaryQueryField::WriteSpeed,
        DynamicSummaryQueryField::TcpConnections,
        DynamicSummaryQueryField::UdpConnections,
        DynamicSummaryQueryField::TotalReceived,
        DynamicSummaryQueryField::TotalTransmitted,
        DynamicSummaryQueryField::TransmitSpeed,
        DynamicSummaryQueryField::ReceiveSpeed,
    ];
    assert(fields@ =~= every_field());
    add_columns(columns, &fields)
}

/// The selection of a query for the agents with the given numbers.
pub fn plan_select(
    fields: &Vec<DynamicSummaryQueryField>,
    ids: Vec<i16>,
    from: i64,
    to: i64,
) -> (select: HistorySelect)
    requires
        ids@.len() * 1_000 <= u64::MAX,
    ensures
        select@ == history_select(fields@, ids@, from, to),
{
    let mut base: Vec<SummarySelection> = Vec::new();
    base.push(SummarySelection::UuidId);
    base.push(SummarySelection::Timestamp);
    assert(base@ =~= seq![SummarySelection::UuidId, SummarySelection::Timestamp]);
    let columns = if fields.len() == 0 {
        add_all_columns(base)
    } else {
        add_columns(base, fields)
    };
    let row_count: u64 = ids.len() as u64 * ROWS_PER_AGENT;
    let limit: u64 = if row_count <= MAX_LIMIT {
        row_count
    } else {
        MAX_LIMIT
    };
    let span = ColumnSpan {
        column: SummarySelection::Timestamp,
        from: SpanEnd::Included(from),
        to: SpanEnd::Included(to),
    };
    let order = RowOrder {
        column: SummarySelection::Timestamp,
        direction: SortDirection::Ascending,
    };
    HistorySelect { columns, uuid_ids: ids, span, order, limit }
}

/// Every field is selected when no field is named, each once, behind the agent and the moment.
pub proof fn law_no_fields_means_every_field(field: DynamicSummaryQueryField)
    ensures
        selected_columns(Seq::empty()).contains(SummarySelection::Field(field)),
        selected_columns(Seq::empty()).no_duplicates(),
        selected_columns(Seq::empty()).len() == 25,
        selected_columns(Seq::empty())[0] == SummarySelection::UuidId,
        selected_columns(Seq::empty())[1] == SummarySelection::Timestamp,
{
    let columns = selected_columns(Seq::empty());
    let i: int = match field {
        DynamicSummaryQueryField::CpuUsage => 0,
        DynamicSummaryQueryField::GpuUsage => 1,
        DynamicSummaryQueryField::UsedSwap => 2,
        DynamicSummaryQueryField::TotalSwap => 3,
        DynamicSummaryQueryField::UsedMemory => 4,
        DynamicSummaryQueryField::TotalMemory => 5,
        DynamicSummaryQueryField::AvailableMemory => 6,
        DynamicSummaryQueryField::LoadOne => 7,
        DynamicSummaryQueryField::LoadFive => 8,
        DynamicSummaryQueryField::LoadFifteen => 9,
        DynamicSummaryQueryField::Uptime => 10,
        DynamicSummaryQueryField::BootTime => 11,
        DynamicSummaryQueryField::ProcessCount => 12,
        DynamicSummaryQueryField::TotalSpace => 13,
        DynamicSummaryQueryField::AvailableSpace => 14,
        DynamicSummaryQueryField::ReadSpeed => 15,
        DynamicSummaryQueryField::WriteSpeed => 16,
        DynamicSummaryQueryField::TcpConnections => 17,
        DynamicSummaryQueryField::UdpConnections => 18,
        DynamicSummaryQueryField::TotalReceived => 19,
        DynamicSummaryQueryField::TotalTransmitted => 20,
        DynamicSummaryQueryField::TransmitSpeed => 21,
        DynamicSummaryQueryField::ReceiveSpeed => 22,
    };
    assert(every_field()[i] == field);
    assert(columns[i + 2] == SummarySelection::Field(field));
}

/// A query never returns more than the limit, nor more than a thousand records for each agent, and
/// a further agent never lowers the number.
pub proof fn law_rows_are_capped(agents: nat)
    ensures
        row_cap(agents) <= MAX_LIMIT,
        row_cap(agents) <= agents * ROWS_PER_AGENT,
        row_cap(agents) <= row_cap(agents + 1),
{
}

/// A recorded summary.
pub struct SummaryRecord {
    pub uuid_id: i16,
    pub timestamp: i64,
    pub fields: spec_fn(DynamicSummaryQueryField) -> Option<int>,
}

impl SummaryRecord {
    /// What the record holds in a column.
    pub open spec fn value(self, column: SummarySelection) -> Option<int> {
        match column {
            SummarySelection::UuidId => Some(self.uuid_id as int),
            SummarySelection::Timestamp => Some(self.timestamp as int),
            SummarySelection::Field(field) => (self.fields)(field),
        }
    }
}

impl ColumnSpan {
    /// Whether a record lies in the span.
    pub open spec fn holds(self, record: SummaryRecord) -> bool {
        match record.value(self.column) {
            Some(value) => {
                &&& match self.from {
                    SpanEnd::Included(from) => from <= value,
                    SpanEnd::Excluded(from) => from < value,
                }
                &&& match self.to {
                    SpanEnd::Included(to) => value <= to,
                    SpanEnd::Excluded(to) => value < to,
                }
            },
            None => false,
        }
    }
}

impl RowOrder {
    /// Whether the order puts one record behind the other.
    pub open spec fn puts_behind(self, a: SummaryRecord, b: SummaryRecord) -> bool {
        match (a.value(self.column), b.value(self.column)) {
            (Some(x), Some(y)) => match self.direction {
                SortDirection::Ascending => x > y,
                SortDirection::Descending => x < y,
            },
            _ => false,
        }
    }
}

impl HistorySelectView {
    /// Whether a record is of one of the agents and in the span.
    pub open spec fn meets(self, record: SummaryRecord) -> bool {
        self.uuid_ids.contains(record.uuid_id) && self.span.holds(record)
    }

    /// How many records of the table are of one of the agents and in the span.
    pub open spec fn meeting(self, table: Seq<SummaryRecord>) -> nat
        decreases table.len(),
    {
        if table.len() == 0 {
            0
        } else {
            self.meeting(table.drop_last()) + if self.meets(table.last()) {
                1nat
            } else {
                0
            }
        }
    }

    /// Whether the places of the table, in this order, are what the selection comes to: as many
    /// places of different records that are met as there are, or as the limit allows, in the order,
    /// and those that are left out do not belong before any of them.
    pub open spec fn comes_to(self, table: Seq<SummaryRecord>, places: Seq<int>) -> bool {
        &&& places.no_duplicates()
        &&& forall|i: int|
            0 <= i < places.len() ==> 0 <= #[trigger] places[i] < table.len() && self.meets(
                table[places[i]],
            )
        &&& forall|i: int, j: int|
            0 <= i < j < places.len() ==> !self.order.puts_behind(
                table[#[trigger] places[i]],
                table[#[trigger] places[j]],
            )
        &&& places.len() == if self.meeting(table) <= self.limit {
            self.meeting(table)
        } else {
            self.limit as nat
        }
        &&& forall|i: int, k: int|
            0 <= i < places.len() && 0 <= k < table.len() && self.meets(table[k])
                && !places.contains(k) ==> !self.order.puts_behind(
                table[#[trigger] places[i]],
                #[trigger] table[k],
            )
    }
}

/// Whether a record is of one of the agents and not before the one moment nor after the other.
pub open spec fn is_between(record: SummaryRecord, ids: Seq<i16>, from: i64, to: i64) -> bool {
    ids.contains(record.uuid_id) && from <= record.timestamp <= to
}

/// How many records of the table are of one of the agents and between the moments.
pub open spec fn records_between(
    table: Seq<SummaryRecord>,
    ids: Seq<i16>,
    from: i64,
    to: i64,
) -> nat
    decreases table.len(),
{
    if table.len() == 0 {
        0
    } else {
        records_between(table.drop_last(), ids, from, to) + if is_between(
            table.last(),
            ids,
            from,
            to,
        ) {
            1nat
        } else {
            0
        }
    }
}

proof fn lemma_meeting(
    fields: Seq<DynamicSummaryQueryField>,
    ids: Seq<i16>,
    from: i64,
    to: i64,
    table: Seq<SummaryRecord>,
)
    ensures
        history_select(fields, ids, from, to).meeting(table) == records_between(
            table,
            ids,
            from,
            to,
        ),
    decreases table.len(),
{
    if table.len() > 0 {
        lemma_meeting(fields, ids, from, to, table.drop_last());
    }
}

/// A history is made of the earliest records of the agents in the span of time, both ends included,
/// the earliest first: as many as there are, but not more than a thousand for each agent and not
/// more than the limit. No record comes twice, and none that is left out is earlier than one that
/// comes.
pub proof fn law_history_is_the_earliest_records(
    fields: Seq<DynamicSummaryQueryField>,
    ids: Seq<i16>,
    from: i64,
    to: i64,
    table: Seq<SummaryRecord>,
    places: Seq<int>,
)
    requires
        history_select(fields, ids, from, to).comes_to(table, places),
    ensures
        places.no_duplicates(),
        forall|i: int|
            0 <= i < places.len() ==> 0 <= #[trigger] places[i] < table.len() && is_between(
                table[places[i]],
                ids,
                from,
                to,
            ),
        forall|i: int, j: int|
            0 <= i < j < places.len() ==> table[#[trigger] places[i]].timestamp <= table[
                #[trigger] places[j]
            ].timestamp,
        places.len() == if records_between(table, ids, from, to) <= row_cap(ids.len()) {
            records_between(table, ids, from, to)
        } else {
            row_cap(ids.len())
        },
        forall|i: int, k: int|
            0 <= i < places.len() && 0 <= k < table.len() && is_between(table[k], ids, from, to)
                && !places.contains(k) ==> table[#[trigger] places[i]].timestamp <= (
            #[trigger] table[k]).timestamp,
{
    lemma_meeting(fields, ids, from, to, table);
    let select = history_select(fields, ids, from, to);
    assert forall|i: int, k: int|
        0 <= i < places.len() && 0 <= k < table.len() && is_between(table[k], ids, from, to)
            && !places.contains(k) implies table[#[trigger] places[i]].timestamp <= (
    #[trigger] table[k]).timestamp by {
        assert(select.meets(table[k]));
        assert(!select.order.puts_behind(table[places[i]], table[k]));
    }
    assert forall|i: int, j: int| 0 <= i < j < places.len() implies table[
        #[trigger] places[i]
    ].timestamp <= table[#[trigger] places[j]].timestamp by {
        assert(!select.order.puts_behind(table[places[i]], table[places[j]]));
    }
}

/// The selected columns: the agent, the moment, and behind them exactly the named fields, every one of
/// them in its place; without a named field all twenty-three.
pub proof fn law_named_fields_are_selected(fields: Seq<DynamicSummaryQueryField>, i: int)
    ensures
        selected_columns(fields)[0] == SummarySelection::UuidId,
        selected_columns(fields)[1] == SummarySelection::Timestamp,
        fields.len() > 0 ==> selected_columns(fields).len() == 2 + fields.len(),
        fields.len() == 0 ==> selected_columns(fields).len() == 25,
        0 <= i < fields.len() ==> selected_columns(fields)[2 + i] == SummarySelection::Field(
            fields[i],
        ),
{
}

/// A query asks for its fields of its agents in its closed span of time, the earliest records first,
/// a thousand for each agent but not more than fifty thousand.
pub proof fn law_selection_of_a_query(
    fields: Seq<DynamicSummaryQueryField>,
    ids: Seq<i16>,
    from: i64,
    to: i64,
)
    ensures
        ({
            let select = history_select(fields, ids, from, to);
            &&& select.columns == selected_columns(fields)
            &&& select.uuid_ids == ids
            &&& select.span.column == SummarySelection::Timestamp
            &&& select.span.from == SpanEnd::Included(from)
            &&& select.span.to == SpanEnd::Included(to)
            &&& select.order.column == SummarySelection::Timestamp
            &&& select.order.direction == SortDirection::Ascending
            &&& select.limit <= 50_000
            &&& select.limit <= 1_000 * ids.len()
            &&& select.limit == 50_000 || select.limit == 1_000 * ids.len()
        }),
{
}

/// Fields go behind the columns that are there, one for one and in order, and change none of them.
pub proof fn law_fields_go_behind_the_columns(
    columns: Seq<SummarySelection>,
    fields: Seq<DynamicSummaryQueryField>,
    i: int,
)
    ensures
        with_fields(columns, fields).len() == columns.len() + fields.len(),
        0 <= i < columns.len() ==> with_fields(columns, fields)[i] == columns[i],
        0 <= i < fields.len() ==> with_fields(columns, fields)[columns.len() + i]
            == SummarySelection::Field(fields[i]),
{
}

/// Without a named field the fields are selected in the order in which an agent reports them.
pub proof fn law_order_of_all_fields()
    ensures
        selected_columns(Seq::empty()) == seq![
            SummarySelection::UuidId,
            SummarySelection::Timestamp,
            SummarySelection::Field(DynamicSummaryQueryField::CpuUsage),
            SummarySelection::Field(DynamicSummaryQueryField::GpuUsage),
            SummarySelection::Field(DynamicSummaryQueryField::UsedSwap),
            SummarySelection::Field(DynamicSummaryQueryField::TotalSwap),
            SummarySelection::Field(DynamicSummaryQueryField::UsedMemory),
            SummarySelection::Field(DynamicSummaryQueryField::TotalMemory),
            SummarySelection::Field(DynamicSummaryQueryField::AvailableMemory),
            SummarySelection::Field(DynamicSummaryQueryField::LoadOne),
            SummarySelection::Field(DynamicSummaryQueryField::LoadFive),
            SummarySelection::Field(DynamicSummaryQueryField::LoadFifteen),
            SummarySelection::Field(DynamicSummaryQueryField::Uptime),
            SummarySelection::Field(DynamicSummaryQueryField::BootTime),
            SummarySelection::Field(DynamicSummaryQueryField::ProcessCount),
            SummarySelection::Field(DynamicSummaryQueryField::TotalSpace),
            SummarySelection::Field(DynamicSummaryQueryField::AvailableSpace),
            SummarySelection::Field(DynamicSummaryQueryField::ReadSpeed),
            SummarySelection::Field(DynamicSummaryQueryField::WriteSpeed),
            SummarySelection::Field(DynamicSummaryQueryField::TcpConnections),
            SummarySelection::Field(DynamicSummaryQueryField::UdpConnections),
            SummarySelection::Field(DynamicSummaryQueryField::TotalReceived),
            SummarySelection::Field(DynamicSummaryQueryField::TotalTransmitted),
            SummarySelection::Field(DynamicSummaryQueryField::TransmitSpeed),
            SummarySelection::Field(DynamicSummaryQueryField::ReceiveSpeed),
        ],
{
    assert(selected_columns(Seq::empty()) =~= seq![
        SummarySelection::UuidId,
        SummarySelection::Timestamp,
        SummarySelection::Field(DynamicSummaryQueryField::CpuUsage),
        SummarySelection::Field(DynamicSummaryQueryField::GpuUsage),
        SummarySelection::Field(DynamicSummaryQueryField::UsedSwap),
        SummarySelection::Field(DynamicSummaryQueryField::TotalSwap),
        SummarySelection::Field(DynamicSummaryQueryField::UsedMemory),
        SummarySelection::Field(DynamicSummaryQueryField::TotalMemory),
        SummarySelection::Field(DynamicSummaryQueryField::AvailableMemory),
        SummarySelection::Field(DynamicSummaryQueryField::LoadOne),
        SummarySelection::Field(DynamicSummaryQueryField::LoadFive),
        SummarySelection::Field(DynamicSummaryQueryField::LoadFifteen),
        SummarySelection::Field(DynamicSummaryQueryField::Uptime),
        SummarySelection::Field(DynamicSummaryQueryField::BootTime),
        SummarySelection::Field(DynamicSummaryQueryField::ProcessCount),
        SummarySelection::Field(DynamicSummaryQueryField::TotalSpace),
        SummarySelection::Field(DynamicSummaryQueryField::AvailableSpace),
        SummarySelection::Field(DynamicSummaryQueryField::ReadSpeed),
        SummarySelection::Field(DynamicSummaryQueryField::WriteSpeed),
        SummarySelection::Field(DynamicSummaryQueryField::TcpConnections),
        SummarySelection::Field(DynamicSummaryQueryField::UdpConnections),
        SummarySelection::Field(DynamicSummaryQueryField::TotalReceived),
        SummarySelection::Field(DynamicSummaryQueryField::TotalTransmitted),
        SummarySelection::Field(DynamicSummaryQueryField::TransmitSpeed),
        SummarySelection::Field(DynamicSummaryQueryField::ReceiveSpeed),
    ]);
}

/// A selection holds what its parts hold.
pub proof fn law_selection_in_parts(select: HistorySelect)
    ensures
        select@.columns == select.columns@,
        select@.uuid_ids == select.uuid_ids@,
        select@.span == select.span,
        select@.order == select.order,
        select@.limit == select.limit,
{
}

} // verus!
