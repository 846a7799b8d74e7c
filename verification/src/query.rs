//! Structured queries and the builder that makes them.
//!
//! Mind the builder's asymmetry. Every method that sets a filter (`where_eq`,
//! `where_lt`, ..., `and`, `or`) replaces the filter that was there: two such
//! calls in a row leave only the second. To combine conditions, hand them to
//! `and` or `or` together. `order_by`, in contrast, adds to the orderings that
//! are there. `limit` and `offset` replace.

use vstd::prelude::*;
use crate::json::{
    array_of, entries_view, object_of, push_member, values_view, JsonModel, JsonNumber,
    JsonNumberModel, JsonValue,
};
use crate::models::FirestoreValue;
use crate::wire::{encode_value, encode_value_model, tagged};

verus! {

#[derive(Debug)]
pub struct StructuredQuery {
    pub from: Vec<CollectionSelector>,
    /// The root of the filter tree, if the query filters.
    pub filter: Option<Filter>,
    pub order_by: Option<Vec<Order>>,
    pub limit: Option<i32>,
    pub offset: Option<i32>,
}

#[derive(Debug)]
pub struct CollectionSelector {
    pub collection_id: String,
    pub all_descendants: Option<bool>,
}

#[derive(Debug)]
pub enum Filter {
    CompositeFilter(CompositeFilter),
    FieldFilter(FieldFilter),
    UnaryFilter(UnaryFilter),
}

#[derive(Debug)]
pub struct CompositeFilter {
    pub op: CompositeOperator,
    pub filters: Vec<Filter>,
}

#[derive(Debug, Clone, Copy, PartialEq, Eq, Structural)]
pub enum CompositeOperator {
    And,
    Or,
}

#[derive(Debug)]
pub struct FieldFilter {
    pub field: FieldReference,
    pub op: FieldOperator,
    pub value: FirestoreValue,
}

#[derive(Debug)]
pub struct FieldReference {
    pub field_path: String,
}

#[derive(Debug, Clone, Copy, PartialEq, Eq, Structural)]
pub enum FieldOperator {
    LessThan,
    LessThanOrEqual,
    GreaterThan,
    GreaterThanOrEqual,
    Equal,
    NotEqual,
    ArrayContains,
    In,
    ArrayContainsAny,
    NotIn,
}

#[derive(Debug)]
pub struct UnaryFilter {
    pub op: UnaryOperator,
    pub field: FieldReference,
}

#[derive(Debug, Clone, Copy, PartialEq, Eq, Structural)]
pub enum UnaryOperator {
    IsNan,
    IsNull,
    IsNotNan,
    IsNotNull,
}

#[derive(Debug)]
pub struct Order {
    pub field: FieldReference,
    pub direction: Option<Direction>,
}

#[derive(Debug, Clone, Copy, PartialEq, Eq, Structural)]
pub enum Direction {
    Ascending,
    Descending,
}

/// A comparison of the field `path` with exactly `value`, by `op`.
pub open spec fn is_field_filter(
    f: Filter,
    path: Seq<char>,
    op: FieldOperator,
    value: FirestoreValue,
) -> bool {
    f matches Filter::FieldFilter(ff) && ff.field.field_path@ == path && ff.op == op && ff.value
        == value
}

/// A comparison of the field `path`, by `op`, with the array of `values`.
pub open spec fn is_list_filter(
    f: Filter,
    path: Seq<char>,
    op: FieldOperator,
    values: Vec<FirestoreValue>,
) -> bool {
    f matches Filter::FieldFilter(ff) && ff.field.field_path@ == path && ff.op == op && ff.value
        == (FirestoreValue::ArrayValue { values })
}

/// A test of the field `path` alone, by `op`.
pub open spec fn is_unary_filter(f: Filter, path: Seq<char>, op: UnaryOperator) -> bool {
    f matches Filter::UnaryFilter(uf) && uf.field.field_path@ == path && uf.op == op
}

/// The combination of exactly `filters`, by `op`.
pub open spec fn is_composite_filter(f: Filter, op: CompositeOperator, filters: Vec<Filter>) -> bool {
    f matches Filter::CompositeFilter(cf) && cf.op == op && cf.filters == filters
}

/// An ordering by the field `path`, descending or ascending.
pub open spec fn is_order(o: Order, path: Seq<char>, descending: bool) -> bool {
    o.field.field_path@ == path && o.direction == Some(
        if descending {
            Direction::Descending
        } else {
            Direction::Ascending
        },
    )
}

impl StructuredQuery {
    /// The orderings of the query, in order; none where `order_by` is absent.
    pub open spec fn orders(&self) -> Seq<Order> {
        match self.order_by {
            Some(orders) => orders@,
            None => Seq::empty(),
        }
    }

    /// The query selects from the one collection `collection`, not from its descendants.
    pub open spec fn selects(&self, collection: Seq<char>) -> bool {
        self.from@.len() == 1 && self.from@[0].collection_id@ == collection
            && self.from@[0].all_descendants is None
    }
}

/// Everything but the filter is the same in both queries.
pub open spec fn same_but_filter(a: StructuredQuery, b: StructuredQuery) -> bool {
    a.from == b.from && a.order_by == b.order_by && a.limit == b.limit && a.offset == b.offset
}

#[derive(Debug)]
pub struct QueryBuilder {
    query: StructuredQuery,
}

/// A comparison of the field `field` with `value`, by `op`.
pub fn create_filter(field: &str, op: FieldOperator, value: FirestoreValue) -> (r: Filter)
    ensures
        is_field_filter(r, field@, op, value),
{
    Filter::FieldFilter(
        FieldFilter { field: FieldReference { field_path: String::from_str(field) }, op, value },
    )
}

impl QueryBuilder {
    /// The query as built so far.
    pub closed spec fn query(&self) -> StructuredQuery {
        self.query
    }

    /// A query on the collection `collection`, with no filter, ordering, limit or offset.
    pub fn new(collection: &str) -> (r: Self)
        ensures
            r.query().selects(collection@),
            r.query().filter is None,
            r.query().order_by is None,
            r.query().limit is None,
            r.query().offset is None,
    {
        let mut from: Vec<CollectionSelector> = Vec::new();
        from.push(
            CollectionSelector {
                collection_id: String::from_str(collection),
                all_descendants: None,
            },
        );
        Self {
            query: StructuredQuery { from, filter: None, order_by: None, limit: None, offset: None },
        }
    }

    fn with_filter(self, filter: Filter) -> (r: Self)
        ensures
            r.query().filter == Some(filter),
            same_but_filter(r.query(), self.query()),
    {
        let mut this = self;
        this.query.filter = Some(filter);
        this
    }

    /// Replaces the filter by `field == value`.
    pub fn where_eq(self, field: &str, value: FirestoreValue) -> (r: Self)
        ensures
            r.query().filter matches Some(f) && is_field_filter(
                f,
                field@,
                FieldOperator::Equal,
                value,
            ),
            same_but_filter(r.query(), self.query()),
    {
        self.with_filter(create_filter(field, FieldOperator::Equal, value))
    }

    /// Replaces the filter by `field < value`.
    pub fn where_lt(self, field: &str, value: FirestoreValue) -> (r: Self)
        ensures
            r.query().filter matches Some(f) && is_field_filter(
                f,
                field@,
                FieldOperator::LessThan,
                value,
            ),
            same_but_filter(r.query(), self.query()),
    {
        self.with_filter(create_filter(field, FieldOperator::LessThan, value))
    }

    /// Replaces the filter by `field > value`.
    pub fn where_gt(self, field: &str, value: FirestoreValue) -> (r: Self)
        ensures
            r.query().filter matches Some(f) && is_field_filter(
                f,
                field@,
                FieldOperator::GreaterThan,
                value,
            ),
            same_but_filter(r.query(), self.query()),
    {
        self.with_filter(create_filter(field, FieldOperator::GreaterThan, value))
    }

    /// Replaces the filter by `field <= value`.
    pub fn where_lte(self, field: &str, value: FirestoreValue) -> (r: Self)
        ensures
            r.query().filter matches Some(f) && is_field_filter(
                f,
                field@,
                FieldOperator::LessThanOrEqual,
                value,
            ),
            same_but_filter(r.query(), self.query()),
    {
        self.with_filter(create_filter(field, FieldOperator::LessThanOrEqual, value))
    }

    /// Replaces the filter by `field >= value`.
    pub fn where_gte(self, field: &str, value: FirestoreValue) -> (r: Self)
        ensures
            r.query().filter matches Some(f) && is_field_filter(
                f,
                field@,
                FieldOperator::GreaterThanOrEqual,
                value,
            ),
            same_but_filter(r.query(), self.query()),
    {
        self.with_filter(create_filter(field, FieldOperator::GreaterThanOrEqual, value))
    }

    /// Replaces the filter by `field != value`.
    pub fn where_ne(self, field: &str, value: FirestoreValue) -> (r: Self)
        ensures
            r.query().filter matches Some(f) && is_field_filter(
                f,
                field@,
                FieldOperator::NotEqual,
                value,
            ),
            same_but_filter(r.query(), self.query()),
    {
        self.with_filter(create_filter(field, FieldOperator::NotEqual, value))
    }

    /// Replaces the filter by `field in values`: the values travel as one array value.
    pub fn where_in(self, field: &str, values: Vec<FirestoreValue>) -> (r: Self)
        ensures
            r.query().filter matches Some(f) && is_list_filter(
                f,
                field@,
                FieldOperator::In,
                values,
            ),
            same_but_filter(r.query(), self.query()),
    {
        self.with_filter(
            create_filter(field, FieldOperator::In, FirestoreValue::ArrayValue { values }),
        )
    }

    /// Replaces the filter by `field array-contains value`.
    pub fn where_array_contains(self, field: &str, value: FirestoreValue) -> (r: Self)
        ensures
            r.query().filter matches Some(f) && is_field_filter(
                f,
                field@,
                FieldOperator::ArrayContains,
                value,
            ),
            same_but_filter(r.query(), self.query()),
    {
        self.with_filter(create_filter(field, FieldOperator::ArrayContains, value))
    }

    /// Replaces the filter by `field is null`.
    pub fn where_is_null(self, field: &str) -> (r: Self)
        ensures
            r.query().filter matches Some(f) && is_unary_filter(f, field@, UnaryOperator::IsNull),
            same_but_filter(r.query(), self.query()),
    {
        self.with_filter(
            Filter::UnaryFilter(
                UnaryFilter {
                    op: UnaryOperator::IsNull,
                    field: FieldReference { field_path: String::from_str(field) },
                },
            ),
        )
    }

    /// Replaces the filter by `field is not null`.
    pub fn where_is_not_null(self, field: &str) -> (r: Self)
        ensures
            r.query().filter matches Some(f) && is_unary_filter(
                f,
                field@,
                UnaryOperator::IsNotNull,
            ),
            same_but_filter(r.query(), self.query()),
    {
        self.with_filter(
            Filter::UnaryFilter(
                UnaryFilter {
                    op: UnaryOperator::IsNotNull,
                    field: FieldReference { field_path: String::from_str(field) },
                },
            ),
        )
    }

    /// Replaces the filter by the conjunction of `filters`.
    pub fn and(self, filters: Vec<Filter>) -> (r: Self)
        ensures
            r.query().filter matches Some(f) && is_composite_filter(
                f,
                CompositeOperator::And,
                filters,
            ),
            same_but_filter(r.query(), self.query()),
    {
        self.with_filter(
            Filter::CompositeFilter(CompositeFilter { op: CompositeOperator::And, filters }),
        )
    }

    /// Replaces the filter by the disjunction of `filters`.
    pub fn or(self, filters: Vec<Filter>) -> (r: Self)
        ensures
            r.query().filter matches Some(f) && is_composite_filter(
                f,
                CompositeOperator::Or,
                filters,
            ),
            same_but_filter(r.query(), self.query()),
    {
        self.with_filter(
            Filter::CompositeFilter(CompositeFilter { op: CompositeOperator::Or, filters }),
        )
    }

    /// Adds an ordering by `field` after the orderings that are there.
    pub fn order_by(self, field: &str, descending: bool) -> (r: Self)
        ensures
            r.query().order_by is Some,
            r.query().orders().len() == self.query().orders().len() + 1,
            r.query().orders().drop_last() == self.query().orders(),
            is_order(r.query().orders().last(), field@, descending),
            r.query().from == self.query().from,
            r.query().filter == self.query().filter,
            r.query().limit == self.query().limit,
            r.query().offset == self.query().offset,
    {
        let order = Order {
            field: FieldReference { field_path: String::from_str(field) },
            direction: Some(
                if descending {
                    Direction::Descending
                } else {
                    Direction::Ascending
                },
            ),
        };
        let StructuredQuery { from, filter, order_by, limit, offset } = self.query;
        let mut orders: Vec<Order> = match order_by {
            Some(orders) => orders,
            None => Vec::new(),
        };
        let ghost before = orders@;
        orders.push(order);
        assert(orders@.drop_last() =~= before);
        Self { query: StructuredQuery { from, filter, order_by: Some(orders), limit, offset } }
    }

    /// Sets the limit, replacing one that was set.
    pub fn limit(self, limit: i32) -> (r: Self)
        ensures
            r.query().limit == Some(limit),
            r.query().from == self.query().from,
            r.query().filter == self.query().filter,
            r.query().order_by == self.query().order_by,
            r.query().offset == self.query().offset,
    {
        let mut this = self;
        this.query.limit = Some(limit);
        this
    }

    /// Sets the offset, replacing one that was set.
    pub fn offset(self, offset: i32) -> (r: Self)
        ensures
            r.query().offset == Some(offset),
            r.query().from == self.query().from,
            r.query().filter == self.query().filter,
            r.query().order_by == self.query().order_by,
            r.query().limit == self.query().limit,
    {
        let mut this = self;
        this.query.offset = Some(offset);
        this
    }

    /// The query as built.
    pub fn build(self) -> (r: StructuredQuery)
        ensures
            r == self.query(),
    {
        self.query
    }
}

/// `entries` followed by the member `key`, where there is a value for it.
pub open spec fn with_optional(
    entries: Seq<(Seq<char>, JsonModel)>,
    key: Seq<char>,
    value: Option<JsonModel>,
) -> Seq<(Seq<char>, JsonModel)> {
    match value {
        Some(v) => entries.push((key, v)),
        None => entries,
    }
}

impl FieldOperator {
    /// The operator's name in the store's query language.
    pub open spec fn name(self) -> Seq<char> {
        match self {
            FieldOperator::LessThan => "LESS_THAN"@,
            FieldOperator::LessThanOrEqual => "LESS_THAN_OR_EQUAL"@,
            FieldOperator::GreaterThan => "GREATER_THAN"@,
            FieldOperator::GreaterThanOrEqual => "GREATER_THAN_OR_EQUAL"@,
            FieldOperator::Equal => "EQUAL"@,
            FieldOperator::NotEqual => "NOT_EQUAL"@,
            FieldOperator::ArrayContains => "ARRAY_CONTAINS"@,
            FieldOperator::In => "IN"@,
            FieldOperator::ArrayContainsAny => "ARRAY_CONTAINS_ANY"@,
            FieldOperator::NotIn => "NOT_IN"@,
        }
    }

    pub fn to_name(&self) -> (r: String)
        ensures
            r@ == self.name(),
    {
        let name = match self {
            FieldOperator::LessThan => "LESS_THAN",
            FieldOperator::LessThanOrEqual => "LESS_THAN_OR_EQUAL",
            FieldOperator::GreaterThan => "GREATER_THAN",
            FieldOperator::GreaterThanOrEqual => "GREATER_THAN_OR_EQUAL",
            FieldOperator::Equal => "EQUAL",
            FieldOperator::NotEqual => "NOT_EQUAL",
            FieldOperator::ArrayContains => "ARRAY_CONTAINS",
            FieldOperator::In => "IN",
            FieldOperator::ArrayContainsAny => "ARRAY_CONTAINS_ANY",
            FieldOperator::NotIn => "NOT_IN",
        };
        String::from_str(name)
    }
}

impl UnaryOperator {
    /// The operator's name in the store's query language.
    pub open spec fn name(self) -> Seq<char> {
        match self {
            UnaryOperator::IsNan => "IS_NAN"@,
            UnaryOperator::IsNull => "IS_NULL"@,
            UnaryOperator::IsNotNan => "IS_NOT_NAN"@,
            UnaryOperator::IsNotNull => "IS_NOT_NULL"@,
        }
    }

    pub fn to_name(&self) -> (r: String)
        ensures
            r@ == self.name(),
    {
        let name = match self {
            UnaryOperator::IsNan => "IS_NAN",
            UnaryOperator::IsNull => "IS_NULL",
            UnaryOperator::IsNotNan => "IS_NOT_NAN",
            UnaryOperator::IsNotNull => "IS_NOT_NULL",
        };
        String::from_str(name)
    }
}

impl CompositeOperator {
    /// The operator's name in the store's query language.
    pub open spec fn name(self) -> Seq<char> {
        match self {
            CompositeOperator::And => "AND"@,
            CompositeOperator::Or => "OR"@,
        }
    }

    pub fn to_name(&self) -> (r: String)
        ensures
            r@ == self.name(),
    {
        let name = match self {
            CompositeOperator::And => "AND",
            CompositeOperator::Or => "OR",
        };
        String::from_str(name)
    }
}

impl Direction {
    /// The direction's name in the store's query language.
    pub open spec fn name(self) -> Seq<char> {
        match self {
            Direction::Ascending => "ASCENDING"@,
            Direction::Descending => "DESCENDING"@,
        }
    }

    pub fn to_name(&self) -> (r: String)
        ensures
            r@ == self.name(),
    {
        let name = match self {
            Direction::Ascending => "ASCENDING",
            Direction::Descending => "DESCENDING",
        };
        String::from_str(name)
    }
}

/// The JSON shape of a reference to the field `path`.
pub open spec fn field_json(path: Seq<char>) -> JsonModel {
    tagged("fieldPath"@, JsonModel::String(path))
}

/// The JSON shape of a filter: an object with one member, named after the
/// kind of the filter.
pub open spec fn filter_json(f: Filter) -> JsonModel
    decreases f,
{
    match f {
        Filter::FieldFilter(ff) => tagged(
            "fieldFilter"@,
            JsonModel::Object(
                seq![
                    ("field"@, field_json(ff.field.field_path@)),
                    ("op"@, JsonModel::String(ff.op.name())),
                    ("value"@, encode_value_model(ff.value@)),
                ],
            ),
        ),
        Filter::UnaryFilter(uf) => tagged(
            "unaryFilter"@,
            JsonModel::Object(
                seq![
                    ("op"@, JsonModel::String(uf.op.name())),
                    ("field"@, field_json(uf.field.field_path@)),
                ],
            ),
        ),
        Filter::CompositeFilter(cf) => tagged(
            "compositeFilter"@,
            JsonModel::Object(
                seq![
                    ("op"@, JsonModel::String(cf.op.name())),
                    (
                        "filters"@,
                        JsonModel::Array(
                            Seq::new(
                                cf.filters@.len(),
                                |i: int|
                                    if 0 <= i < cf.filters@.len() {
                                        filter_json(cf.filters@[i])
                                    } else {
                                        JsonModel::Null
                                    },
                            ),
                        ),
                    ),
                ],
            ),
        ),
    }
}

/// The JSON shape of an ordering.
pub open spec fn order_json(o: Order) -> JsonModel {
    JsonModel::Object(
        with_optional(
            seq![("field"@, field_json(o.field.field_path@))],
            "direction"@,
            match o.direction {
                Some(d) => Some(JsonModel::String(d.name())),
                None => None,
            },
        ),
    )
}

/// The JSON shape of a collection selector.
pub open spec fn selector_json(c: CollectionSelector) -> JsonModel {
    JsonModel::Object(
        with_optional(
            seq![("collectionId"@, JsonModel::String(c.collection_id@))],
            "allDescendants"@,
            match c.all_descendants {
                Some(b) => Some(JsonModel::Bool(b)),
                None => None,
            },
        ),
    )
}

/// A 32-bit number as a JSON value.
pub open spec fn number_json(n: i32) -> JsonModel {
    JsonModel::Number(JsonNumberModel::Integer(n as i64))
}

/// The JSON shape of a query: `from`, then `where`, `orderBy`, `limit` and
/// `offset`, each only where the query has it.
pub open spec fn query_json(q: StructuredQuery) -> JsonModel {
    let from = JsonModel::Array(Seq::new(q.from@.len(), |i: int| selector_json(q.from@[i])));
    let filter = match q.filter {
        Some(f) => Some(filter_json(f)),
        None => None,
    };
    let orders = match q.order_by {
        Some(orders) => Some(
            JsonModel::Array(Seq::new(orders@.len(), |i: int| order_json(orders@[i]))),
        ),
        None => None,
    };
    let limit = match q.limit {
        Some(n) => Some(number_json(n)),
        None => None,
    };
    let offset = match q.offset {
        Some(n) => Some(number_json(n)),
        None => None,
    };
    JsonModel::Object(
        with_optional(
            with_optional(
                with_optional(with_optional(seq![("from"@, from)], "where"@, filter), "orderBy"@, orders),
                "limit"@,
                limit,
            ),
            "offset"@,
            offset,
        ),
    )
}

fn field_to_json(field: &FieldReference) -> (r: JsonValue)
    ensures
        r@ == field_json(field.field_path@),
{
    let mut entries: Vec<(String, JsonValue)> = Vec::new();
    assert(entries_view(entries@) =~= Seq::empty());
    push_member(&mut entries, "fieldPath", JsonValue::String(field.field_path.clone()));
    assert(entries_view(entries@) =~= seq![
        ("fieldPath"@, JsonModel::String(field.field_path@)),
    ]);
    object_of(entries)
}

impl Filter {
    /// The JSON shape of the filter.
    pub fn to_json(&self) -> (r: JsonValue)
        ensures
            r@ == filter_json(*self),
        decreases self,
    {
        let mut inner: Vec<(String, JsonValue)> = Vec::new();
        assert(entries_view(inner@) =~= Seq::empty());
        let tag = match self {
            Filter::FieldFilter(ff) => {
                push_member(&mut inner, "field", field_to_json(&ff.field));
                push_member(&mut inner, "op", JsonValue::String(ff.op.to_name()));
                push_member(&mut inner, "value", encode_value(&ff.value));
                assert(entries_view(inner@) =~= filter_json(*self)->Object_0[0].1->Object_0);
                "fieldFilter"
            },
            Filter::UnaryFilter(uf) => {
                push_member(&mut inner, "op", JsonValue::String(uf.op.to_name()));
                push_member(&mut inner, "field", field_to_json(&uf.field));
                assert(entries_view(inner@) =~= filter_json(*self)->Object_0[0].1->Object_0);
                "unaryFilter"
            },
            Filter::CompositeFilter(cf) => {
                let mut items: Vec<JsonValue> = Vec::new();
                let mut i: usize = 0;
                while i < cf.filters.len()
                    invariant
                        i <= cf.filters.len(),
                        items@.len() == i,
                        *self == Filter::CompositeFilter(*cf),
                        forall|j: int|
                            0 <= j < i ==> (#[trigger] items@[j])@ == filter_json(cf.filters@[j]),
                    decreases cf.filters.len() - i,
                {
                    assert(decreases_to!(*self => self->CompositeFilter_0.filters[i as int]));
                    items.push(cf.filters[i].to_json());
                    i += 1;
                }
                push_member(&mut inner, "op", JsonValue::String(cf.op.to_name()));
                let ghost shaped = filter_json(*self)->Object_0[0].1->Object_0[1].1->Array_0;
                assert(values_view(items@) =~= shaped);
                push_member(&mut inner, "filters", array_of(items));
                assert(entries_view(inner@) =~= filter_json(*self)->Object_0[0].1->Object_0);
                "compositeFilter"
            },
        };
        let mut outer: Vec<(String, JsonValue)> = Vec::new();
        assert(entries_view(outer@) =~= Seq::empty());
        push_member(&mut outer, tag, object_of(inner));
        assert(entries_view(outer@) =~= filter_json(*self)->Object_0);
        object_of(outer)
    }
}

impl Order {
    /// The JSON shape of the ordering.
    pub fn to_json(&self) -> (r: JsonValue)
        ensures
            r@ == order_json(*self),
    {
        let mut entries: Vec<(String, JsonValue)> = Vec::new();
        assert(entries_view(entries@) =~= Seq::empty());
        push_member(&mut entries, "field", field_to_json(&self.field));
        match &self.direction {
            Some(d) => {
                push_member(&mut entries, "direction", JsonValue::String(d.to_name()));
            },
            None => {},
        }
        assert(entries_view(entries@) =~= order_json(*self)->Object_0);
        object_of(entries)
    }
}

impl CollectionSelector {
    /// The JSON shape of the selector.
    pub fn to_json(&self) -> (r: JsonValue)
        ensures
            r@ == selector_json(*self),
    {
        let mut entries: Vec<(String, JsonValue)> = Vec::new();
        assert(entries_view(entries@) =~= Seq::empty());
        push_member(&mut entries, "collectionId", JsonValue::String(self.collection_id.clone()));
        match self.all_descendants {
            Some(b) => {
                push_member(&mut entries, "allDescendants", JsonValue::Bool(b));
            },
            None => {},
        }
        assert(entries_view(entries@) =~= selector_json(*self)->Object_0);
        object_of(entries)
    }
}

impl StructuredQuery {
    /// The JSON shape of the query, as the store's query endpoint takes it.
    pub fn to_json(&self) -> (r: JsonValue)
        ensures
            r@ == query_json(*self),
    {
        let mut selectors: Vec<JsonValue> = Vec::new();
        let mut i: usize = 0;
        while i < self.from.len()
            invariant
                i <= self.from.len(),
                selectors@.len() == i,
                forall|j: int| 0 <= j < i ==> (#[trigger] selectors@[j])@ == selector_json(self.from@[j]),
            decreases self.from.len() - i,
        {
            selectors.push(self.from[i].to_json());
            i += 1;
        }
        let mut entries: Vec<(String, JsonValue)> = Vec::new();
        assert(entries_view(entries@) =~= Seq::empty());
        assert(values_view(selectors@) =~= Seq::new(
            self.from@.len(),
            |i: int| selector_json(self.from@[i]),
        ));
        push_member(&mut entries, "from", array_of(selectors));
        match &self.filter {
            Some(f) => {
                push_member(&mut entries, "where", f.to_json());
            },
            None => {},
        }
        match &self.order_by {
            Some(orders) => {
                let mut items: Vec<JsonValue> = Vec::new();
                let mut k: usize = 0;
                while k < orders.len()
                    invariant
                        k <= orders.len(),
                        items@.len() == k,
                        forall|j: int| 0 <= j < k ==> (#[trigger] items@[j])@ == order_json(orders@[j]),
                    decreases orders.len() - k,
                {
                    items.push(orders[k].to_json());
                    k += 1;
                }
                assert(values_view(items@) =~= Seq::new(
                    orders@.len(),
                    |i: int| order_json(orders@[i]),
                ));
                push_member(&mut entries, "orderBy", array_of(items));
            },
            None => {},
        }
        match self.limit {
            Some(n) => {
                push_member(&mut entries, "limit", JsonValue::Number(JsonNumber::Integer(n as i64)));
            },
            None => {},
        }
        match self.offset {
            Some(n) => {
                push_member(&mut entries, "offset", JsonValue::Number(JsonNumber::Integer(n as i64)));
            },
            None => {},
        }
        assert(entries_view(entries@) =~= query_json(*self)->Object_0);
        object_of(entries)
    }
}

} // verus!
