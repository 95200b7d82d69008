//! Structured and full-text queries against the preset index.
use vstd::prelude::*;
use crate::text::{dec, push_dec};

verus! {

/// A preset query; absent fields do not filter.
#[derive(Debug, Clone, Default)]
pub struct Query {
    pub text: Option<String>,
    pub vendor: Option<String>,
    pub type_filter: Option<String>,
    pub limit: Option<u32>,
}

/// One preset of the index.
#[derive(Debug, Clone)]
pub struct PresetRow {
    pub id: i64,
    pub path: String,
    pub name: String,
    pub vendor: String,
    pub plugin_ref: String,
    pub bank_chain: String,
}

/// SQL text and its positional arguments (`?1`, `?2`, ... in order).
#[derive(Debug, Clone)]
pub struct QuerySql {
    pub sql: String,
    pub args: Vec<String>,
}

pub open spec fn lit_select() -> Seq<char> {
    "SELECT DISTINCT p.id, p.path, p.name, p.vendor, p.plugin_ref, p.bank_chain FROM presets p"@
}

pub open spec fn lit_join_types() -> Seq<char> {
    " JOIN preset_types pt ON pt.preset_id = p.id"@
}

pub open spec fn lit_join_fts() -> Seq<char> {
    " JOIN presets_fts f ON f.rowid = p.id"@
}

pub open spec fn lit_order() -> Seq<char> {
    " ORDER BY p.name COLLATE NOCASE"@
}

/// The text query is present and not empty.
pub open spec fn has_text(q: Query) -> bool {
    q.text is Some && q.text->0@.len() > 0
}

/// The filter clauses of `q`, numbered from `?1` in the order type, text,
/// vendor.
pub open spec fn where_clauses(q: Query) -> Seq<Seq<char>> {
    let n_type: nat = if q.type_filter is Some {
        1
    } else {
        0
    };
    let n_text: nat = if has_text(q) {
        1
    } else {
        0
    };
    (if q.type_filter is Some {
        seq!["pt.type = ?"@ + dec(1)]
    } else {
        seq![]
    }) + (if has_text(q) {
        seq!["presets_fts MATCH ?"@ + dec(1 + n_type)]
    } else {
        seq![]
    }) + (if q.vendor is Some {
        seq!["p.vendor = ?"@ + dec(1 + n_type + n_text)]
    } else {
        seq![]
    })
}

/// The arguments bound to the clauses, in the same order.
pub open spec fn query_args(q: Query) -> Seq<Seq<char>> {
    (if q.type_filter is Some {
        seq![q.type_filter->0@]
    } else {
        seq![]
    }) + (if has_text(q) {
        seq![q.text->0@]
    } else {
        seq![]
    }) + (if q.vendor is Some {
        seq![q.vendor->0@]
    } else {
        seq![]
    })
}

/// Clause `c` ends with the placeholder number `k`.
pub open spec fn ends_with_number(c: Seq<char>, k: nat) -> bool {
    c.len() >= dec(k).len() && c.subrange(c.len() - dec(k).len(), c.len() as int) == dec(k)
}

proof fn lemma_ends_with_number(a: Seq<char>, k: nat)
    ensures
        ends_with_number(a + dec(k), k),
{
    assert((a + dec(k)).subrange(a.len() as int, (a + dec(k)).len() as int) =~= dec(k));
}

/// The filter clauses and their arguments line up: there are as many
/// arguments as clauses, and clause `i` uses placeholder `?{i + 1}`, the
/// position of its argument.
pub proof fn placeholders_match_args(q: Query)
    ensures
        where_clauses(q).len() == query_args(q).len(),
        forall|i: int|
            0 <= i < where_clauses(q).len() ==> ends_with_number(
                #[trigger] where_clauses(q)[i],
                (i + 1) as nat,
            ),
{
    let n_type: nat = if q.type_filter is Some {
        1
    } else {
        0
    };
    let n_text: nat = if has_text(q) {
        1
    } else {
        0
    };
    lemma_ends_with_number("pt.type = ?"@, 1);
    lemma_ends_with_number("presets_fts MATCH ?"@, 1 + n_type);
    lemma_ends_with_number("p.vendor = ?"@, 1 + n_type + n_text);
    let w = where_clauses(q);
    assert forall|i: int| 0 <= i < w.len() implies ends_with_number(#[trigger] w[i], (i + 1) as nat) by {
        if q.type_filter is Some && i == 0 {
            assert(w[i] == "pt.type = ?"@ + dec(1));
        } else if has_text(q) && i == n_type {
            assert(w[i] == "presets_fts MATCH ?"@ + dec(1 + n_type));
        } else {
            assert(w[i] == "p.vendor = ?"@ + dec(1 + n_type + n_text));
        }
    }
}

/// `parts` joined with `sep`.
pub open spec fn join(parts: Seq<Seq<char>>, sep: Seq<char>) -> Seq<char>
    decreases parts.len(),
{
    if parts.len() == 0 {
        seq![]
    } else if parts.len() == 1 {
        parts[0]
    } else {
        join(parts.drop_last(), sep) + sep + parts.last()
    }
}

/// The SQL text of `q`.
pub open spec fn query_sql(q: Query) -> Seq<char> {
    let clauses = where_clauses(q);
    lit_select() + (if q.type_filter is Some {
        lit_join_types()
    } else {
        seq![]
    }) + (if has_text(q) {
        lit_join_fts()
    } else {
        seq![]
    }) + (if clauses.len() > 0 {
        " WHERE "@ + join(clauses, " AND "@)
    } else {
        seq![]
    }) + lit_order() + (match q.limit {
        Some(l) => " LIMIT "@ + dec(l as nat),
        None => seq![],
    })
}

fn push(out: &mut String, s: &str)
    ensures
        final(out)@ == old(out)@ + s@,
{
    out.append(s);
}

fn clone_string(s: &String) -> (r: String)
    ensures
        r@ == s@,
{
    s.clone()
}

impl Query {
    /// The SQL text and arguments that select the presets `q` matches,
    /// ordered by name without regard to case.
    pub fn to_sql(&self) -> (r: QuerySql)
        ensures
            r.sql@ == query_sql(*self),
            r.args@.map_values(|a: String| a@) == query_args(*self),
    {
        proof {
            reveal_strlit(
                "SELECT DISTINCT p.id, p.path, p.name, p.vendor, p.plugin_ref, p.bank_chain FROM presets p",
            );
            reveal_strlit(" JOIN preset_types pt ON pt.preset_id = p.id");
            reveal_strlit(" JOIN presets_fts f ON f.rowid = p.id");
            reveal_strlit(" ORDER BY p.name COLLATE NOCASE");
            reveal_strlit("pt.type = ?");
            reveal_strlit("presets_fts MATCH ?");
            reveal_strlit("p.vendor = ?");
            reveal_strlit(" WHERE ");
            reveal_strlit(" AND ");
            reveal_strlit(" LIMIT ");
        }
        let mut sql = String::new();
        push(&mut sql, "SELECT DISTINCT p.id, p.path, p.name, p.vendor, p.plugin_ref, p.bank_chain FROM presets p");
        let mut clauses: Vec<String> = Vec::new();
        let mut args: Vec<String> = Vec::new();
        let mut arg_i: u64 = 1;
        let ghost q = *self;
        if let Some(t) = &self.type_filter {
            push(&mut sql, " JOIN preset_types pt ON pt.preset_id = p.id");
            let mut c = String::new();
            push(&mut c, "pt.type = ?");
            push_dec(&mut c, arg_i);
            clauses.push(c);
            args.push(clone_string(t));
            arg_i = arg_i + 1;
        }
        let mut text_used = false;
        if let Some(text) = &self.text {
            if !text.as_str().is_empty() {
                text_used = true;
                push(&mut sql, " JOIN presets_fts f ON f.rowid = p.id");
                let mut c = String::new();
                push(&mut c, "presets_fts MATCH ?");
                push_dec(&mut c, arg_i);
                clauses.push(c);
                args.push(clone_string(text));
                arg_i = arg_i + 1;
            }
        }
        assert(text_used == has_text(q));
        if let Some(v) = &self.vendor {
            let mut c = String::new();
            push(&mut c, "p.vendor = ?");
            push_dec(&mut c, arg_i);
            clauses.push(c);
            args.push(clone_string(v));
        }
        assert(clauses@.map_values(|c: String| c@) =~= where_clauses(q));
        assert(args@.map_values(|a: String| a@) =~= query_args(q));
        if clauses.len() > 0 {
            push(&mut sql, " WHERE ");
            let mut k: usize = 0;
            let ghost cv = clauses@.map_values(|c: String| c@);
            let ghost before = sql@;
            while k < clauses.len()
                invariant
                    k <= clauses@.len(),
                    cv == clauses@.map_values(|c: String| c@),
                    sql@ == before + join(cv.take(k as int), " AND "@),
                decreases clauses@.len() - k,
            {
                if k > 0 {
                    push(&mut sql, " AND ");
                }
                push(&mut sql, clauses[k].as_str());
                proof {
                    assert(cv.take(k + 1).drop_last() =~= cv.take(k as int));
                    assert(cv.take(k + 1).last() == clauses@[k as int]@);
                    if k == 0 {
                        assert(cv.take(1).len() == 1);
                    }
                }
                k = k + 1;
            }
            assert(cv.take(clauses@.len() as int) =~= cv);
        }
        push(&mut sql, " ORDER BY p.name COLLATE NOCASE");
        if let Some(lim) = self.limit {
            push(&mut sql, " LIMIT ");
            push_dec(&mut sql, lim as u64);
        }
        assert(sql@ =~= query_sql(q));
        QuerySql { sql, args }
    }
}

/// The limit is the last part of the SQL text and nothing else depends on
/// it: with `limit` set to `l`, the text is that of the same query without
/// a limit followed by ` LIMIT ` and the decimal digits of `l`, whatever
/// filters are present; without a limit the text ends with the name order.
pub proof fn limit_ends_the_query(q: Query)
    ensures
        q.limit is None ==> query_sql(q).len() >= lit_order().len() && query_sql(q).subrange(
            query_sql(q).len() - lit_order().len(),
            query_sql(q).len() as int,
        ) == lit_order(),
        q.limit is Some ==> query_sql(q) == query_sql(
            Query { text: q.text, vendor: q.vendor, type_filter: q.type_filter, limit: None },
        ) + " LIMIT "@ + dec(q.limit->0 as nat),
        q.limit is Some ==> {
            let tail = " LIMIT "@ + dec(q.limit->0 as nat);
            &&& query_sql(q).len() >= tail.len()
            &&& query_sql(q).subrange(query_sql(q).len() - tail.len(), query_sql(q).len() as int)
                == tail
        },
{
    let unlimited = Query { text: q.text, vendor: q.vendor, type_filter: q.type_filter, limit: None };
    let body = query_sql(unlimited);
    assert(where_clauses(unlimited) == where_clauses(q));
    assert(has_text(unlimited) == has_text(q));
    match q.limit {
        Some(l) => {
            let tail = " LIMIT "@ + dec(l as nat);
            assert(query_sql(q) =~= body + tail);
            assert((body + tail).subrange(body.len() as int, (body + tail).len() as int) =~= tail);
        },
        None => {
            assert(query_sql(q).subrange(
                query_sql(q).len() - lit_order().len(),
                query_sql(q).len() as int,
            ) =~= lit_order());
        },
    }
}

} // verus!
