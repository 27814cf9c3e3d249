//! The filter of a listing: which rows, and how many.
use vstd::prelude::*;
use crate::config::hyphenated;
use crate::config::uuid_text;
use crate::forum::time::Timestamp;
use crate::forum::time::TimestampView;
use crate::model::view_of;
use crate::text::push_signed_decimal;
use crate::text::signed_decimal;

verus! {

/// What a listing is narrowed by. Each part that is present narrows it.
#[derive(Debug, PartialEq, Eq)]
pub struct Filter {
    /// Rows created at this time or later.
    pub after: Option<Timestamp>,
    /// Rows created at this time or earlier.
    pub before: Option<Timestamp>,
    /// Rows of this thread.
    pub thread: Option<u128>,
    /// Rows of this author.
    pub author: Option<u128>,
    /// At most this many rows.
    pub limit: Option<i64>,
}

/// A [`Filter`] as mathematics.
pub struct FilterView {
    pub after: Option<TimestampView>,
    pub before: Option<TimestampView>,
    pub thread: Option<u128>,
    pub author: Option<u128>,
    pub limit: Option<i64>,
}

impl View for Filter {
    type V = FilterView;

    open spec fn view(&self) -> FilterView {
        FilterView {
            after: view_of(self.after),
            before: view_of(self.before),
            thread: self.thread,
            author: self.author,
            limit: self.limit,
        }
    }
}

/// A condition, if there is one, as a list of one or none.
pub open spec fn maybe(condition: Option<Seq<char>>) -> Seq<Seq<char>> {
    match condition {
        Some(c) => seq![c],
        None => Seq::empty(),
    }
}

/// One condition: `opening`, which names the column, gives the operator
/// and opens the quote, then `value`, then the closing quote.
pub open spec fn condition(opening: Seq<char>, value: Seq<char>) -> Seq<char> {
    opening + value + "'"@
}

/// `conditions` with ` AND ` between them.
pub open spec fn conjunction(conditions: Seq<Seq<char>>) -> Seq<char>
    decreases conditions.len(),
{
    if conditions.len() == 0 {
        Seq::empty()
    } else if conditions.len() == 1 {
        conditions[0]
    } else {
        conjunction(conditions.drop_last()) + " AND "@ + conditions.last()
    }
}

impl FilterView {
    /// The conditions of the parts that are present, in this order: after,
    /// before, thread, author.
    pub open spec fn conditions(self) -> Seq<Seq<char>> {
        maybe(
            match self.after {
                Some(t) => Some(condition("created_at >= '"@, t.text())),
                None => None,
            },
        ) + maybe(
            match self.before {
                Some(t) => Some(condition("created_at <= '"@, t.text())),
                None => None,
            },
        ) + maybe(
            match self.thread {
                Some(id) => Some(condition("thread_id = '"@, uuid_text(id))),
                None => None,
            },
        ) + maybe(
            match self.author {
                Some(id) => Some(condition("author_id = '"@, uuid_text(id))),
                None => None,
            },
        )
    }

    /// The `WHERE` clause: empty where no condition is present.
    pub open spec fn where_clause(self) -> Seq<char> {
        if self.conditions().len() == 0 {
            Seq::empty()
        } else {
            " WHERE "@ + conjunction(self.conditions())
        }
    }

    /// The `LIMIT` clause: empty where no limit is set.
    pub open spec fn limit_clause(self) -> Seq<char> {
        match self.limit {
            Some(limit) => " LIMIT "@ + signed_decimal(limit as int),
            None => Seq::empty(),
        }
    }

    /// `query` narrowed by the filter: the query, the `WHERE` clause, the
    /// `LIMIT` clause and a semicolon.
    pub open spec fn prepared(self, query: Seq<char>) -> Seq<char> {
        query + self.where_clause() + self.limit_clause() + ";"@
    }
}

fn quoted(opening: &str, value: &str) -> (text: String)
    ensures
        text@ == condition(opening@, value@),
{
    let mut text = String::new();
    text.push_str(opening);
    text.push_str(value);
    text.push_str("'");
    proof {
        assert(Seq::<char>::empty() + opening@ + value@ + "'"@ =~= opening@ + value@ + "'"@);
    }
    text
}

impl Filter {
    /// `query` narrowed by the filter. Give it a query without a `WHERE`
    /// clause, such as `SELECT name FROM users`.
    pub fn prepare(&self, query: String) -> (prepared: String)
        ensures
            prepared@ == self@.prepared(query@),
    {
        let mut query = query;
        let ghost start = query@;
        let mut conditions: Vec<String> = Vec::new();
        if let Some(time) = &self.after {
            conditions.push(quoted("created_at >= '", time.as_str()));
        }
        if let Some(time) = &self.before {
            conditions.push(quoted("created_at <= '", time.as_str()));
        }
        if let Some(id) = self.thread {
            conditions.push(quoted("thread_id = '", hyphenated(id).as_str()));
        }
        if let Some(id) = self.author {
            conditions.push(quoted("author_id = '", hyphenated(id).as_str()));
        }
        proof {
            assert(crate::model::views(conditions@) =~= self@.conditions());
        }
        if conditions.len() > 0 {
            query.push_str(" WHERE ");
            let mut i: usize = 0;
            while i < conditions.len()
                invariant
                    i <= conditions@.len(),
                    query@ == start + " WHERE "@ + conjunction(
                        crate::model::views(conditions@).subrange(0, i as int),
                    ),
                decreases conditions@.len() - i,
            {
                let ghost done = crate::model::views(conditions@).subrange(0, i as int);
                let ghost next = crate::model::views(conditions@).subrange(0, i + 1);
                proof {
                    assert(next.drop_last() =~= done);
                    assert(next.last() == conditions@[i as int]@);
                }
                if i > 0 {
                    query.push_str(" AND ");
                }
                query.push_str(conditions[i].as_str());
                proof {
                    if i == 0 {
                        assert(start + " WHERE "@ + Seq::<char>::empty() + conditions@[0]@ =~= start
                            + " WHERE "@ + conjunction(next));
                    } else {
                        assert(start + " WHERE "@ + conjunction(done) + " AND "@
                            + conditions@[i as int]@ =~= start + " WHERE "@ + conjunction(next));
                    }
                }
                i = i + 1;
            }
            proof {
                assert(crate::model::views(conditions@).subrange(0, conditions@.len() as int)
                    =~= self@.conditions());
                assert(start + " WHERE "@ + conjunction(self@.conditions()) =~= start
                    + self@.where_clause());
            }
        } else {
            proof {
                assert(start =~= start + self@.where_clause());
            }
        }
        let ghost narrowed = query@;
        if let Some(limit) = self.limit {
            query.push_str(" LIMIT ");
            push_signed_decimal(&mut query, limit);
            proof {
                assert(narrowed + " LIMIT "@ + signed_decimal(limit as int) =~= narrowed
                    + self@.limit_clause());
            }
        } else {
            proof {
                assert(narrowed =~= narrowed + self@.limit_clause());
            }
        }
        query.push_str(";");
        query
    }
}

} // verus!
