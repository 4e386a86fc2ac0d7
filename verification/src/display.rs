//! The result of a query as lines of text: a table, comma-separated values,
//! JSON, or comments in the manner of Turtle.

use vstd::prelude::*;

use crate::json::{
    list_of, members_model, object_of, pretty_json, put_member,
    render_pretty, set_member, text_value, written, JsonMember, JsonModel, JsonValue,
};
use crate::knowledge_graph::query::{row_views, ResultsView, SimpleSparqlResults, SolutionRow};
use crate::llm_client::{join_all, joined};
use crate::text::{contains, contains_text, has_substring, join2, push_char, texts};
use crate::text_map::{lookup, Entries};

verus! {

/// `headers` with the keys of `row` that are not among them appended, in
/// the order of the row.
pub open spec fn with_keys(headers: Seq<Seq<char>>, row: Entries) -> Seq<Seq<char>>
    decreases row.len(),
{
    if row.len() == 0 {
        headers
    } else {
        let before = with_keys(headers, row.drop_last());
        if before.contains(row.last().0) {
            before
        } else {
            before.push(row.last().0)
        }
    }
}

/// The variables of `rows`, each once, in the order in which they first
/// occur.
pub open spec fn headers_of(rows: Seq<Entries>) -> Seq<Seq<char>>
    decreases rows.len(),
{
    if rows.len() == 0 {
        Seq::empty()
    } else {
        with_keys(headers_of(rows.drop_last()), rows.last())
    }
}

/// The value of `row` under `header`, and the empty string where it has
/// none.
pub open spec fn cell(row: Entries, header: Seq<char>) -> Seq<char> {
    match lookup(row, header) {
        Some(value) => value,
        None => Seq::empty(),
    }
}

/// The values of `row` under `headers`, in the order of the headers.
pub open spec fn cells(row: Entries, headers: Seq<Seq<char>>) -> Seq<Seq<char>> {
    Seq::new(headers.len(), |i: int| cell(row, headers[i]))
}

/// A value as comma-separated values write it: between double quotes where
/// it contains a comma.
pub open spec fn csv_cell(value: Seq<char>) -> Seq<char> {
    if has_substring(value, ","@) {
        "\""@ + value + "\""@
    } else {
        value
    }
}

/// The values of `row` under `headers` as comma-separated values write
/// them.
pub open spec fn csv_cells(row: Entries, headers: Seq<Seq<char>>) -> Seq<Seq<char>> {
    Seq::new(headers.len(), |i: int| csv_cell(cell(row, headers[i])))
}

/// A rule of `n` dashes.
pub open spec fn rule(n: nat) -> Seq<char> {
    Seq::new(n, |i: int| '\u{2500}')
}

/// The width of the rule under `n` variables: twenty dashes for each, and
/// never more than the largest number the machine counts to.
pub open spec fn rule_width(n: nat) -> nat {
    if n * 20 > usize::MAX {
        usize::MAX as nat
    } else {
        n * 20
    }
}

/// The lines of a table: the variables, a rule of twenty dashes for each
/// variable, and one line for each row.
pub open spec fn table_lines(rows: Seq<Entries>) -> Seq<Seq<char>> {
    let headers = headers_of(rows);
    seq![joined(headers, " | "@), rule(rule_width(headers.len()))] + Seq::new(
        rows.len(),
        |i: int| joined(cells(rows[i], headers), " | "@),
    )
}

/// The lines of comma-separated values: the variables, and one line for
/// each row.
pub open spec fn csv_lines(rows: Seq<Entries>) -> Seq<Seq<char>> {
    let headers = headers_of(rows);
    seq![joined(headers, ","@)] + Seq::new(
        rows.len(),
        |i: int| joined(csv_cells(rows[i], headers), ","@),
    )
}

/// The bindings of `row` as comment lines.
pub open spec fn comment_lines(row: Entries) -> Seq<Seq<char>> {
    Seq::new(row.len(), |i: int| "# "@ + row[i].0 + ": "@ + row[i].1)
}

/// The comment lines of `rows`, an empty line after each row.
pub open spec fn rows_as_comments(rows: Seq<Entries>) -> Seq<Seq<char>>
    decreases rows.len(),
{
    if rows.len() == 0 {
        Seq::empty()
    } else {
        rows_as_comments(rows.drop_last()) + comment_lines(rows.last()).push(Seq::empty())
    }
}

/// `true` or `false`.
pub open spec fn truth(b: bool) -> Seq<char> {
    if b {
        "true"@
    } else {
        "false"@
    }
}

/// A result as the lines of a table.
pub open spec fn table_of(results: ResultsView) -> Seq<Seq<char>> {
    match results {
        ResultsView::Solutions(rows) => table_lines(rows),
        ResultsView::Boolean(b) => seq![
            if b {
                "Result:  TRUE"@
            } else {
                "Result:  FALSE"@
            },
        ],
    }
}

/// A result as lines of comma-separated values.
pub open spec fn csv_of(results: ResultsView) -> Seq<Seq<char>> {
    match results {
        ResultsView::Solutions(rows) => csv_lines(rows),
        ResultsView::Boolean(b) => seq!["result"@, truth(b)],
    }
}

/// A result as comment lines.
pub open spec fn comments_of(results: ResultsView) -> Seq<Seq<char>> {
    match results {
        ResultsView::Solutions(rows) => seq!["# SPARQL Solutions as Turtle-like format"@]
            + rows_as_comments(rows),
        ResultsView::Boolean(b) => seq!["# Boolean result: "@ + truth(b)],
    }
}

/// A row as a JSON object: every binding a string member. Of two bindings
/// of one variable the later one counts.
pub open spec fn row_members(row: Entries) -> Seq<(Seq<char>, JsonModel)>
    decreases row.len(),
{
    if row.len() == 0 {
        Seq::empty()
    } else {
        set_member(row_members(row.drop_last()), row.last().0, JsonModel::Text(row.last().1))
    }
}

/// A result as a JSON value: an array of objects for rows, an object with
/// the member `result` for a truth value.
pub open spec fn json_of(results: ResultsView) -> JsonModel {
    match results {
        ResultsView::Solutions(rows) => JsonModel::List(
            Seq::new(rows.len(), |i: int| JsonModel::Object(row_members(rows[i]))),
        ),
        ResultsView::Boolean(b) => JsonModel::Object(seq![("result"@, JsonModel::Bool(b))]),
    }
}

/// Writes `true` or `false`.
fn truth_text(b: bool) -> (r: &'static str)
    ensures
        r@ == truth(b),
{
    if b {
        "true"
    } else {
        "false"
    }
}

/// Collects the variables of `rows`.
pub fn collect_headers(rows: &Vec<SolutionRow>) -> (headers: Vec<String>)
    ensures
        texts(headers@) == headers_of(row_views(rows@)),
{
    let ghost all = row_views(rows@);
    let mut headers: Vec<String> = Vec::new();
    let mut i: usize = 0;
    assert(texts(headers@) =~= headers_of(all.take(0)));
    while i < rows.len()
        invariant
            i <= rows.len(),
            all == row_views(rows@),
            texts(headers@) == headers_of(all.take(i as int)),
        decreases rows.len() - i,
    {
        proof {
            let next = all.take(i + 1);
            assert(next.drop_last() == all.take(i as int));
            assert(next.last() == rows@[i as int]@);
        }
        let row = &rows[i];
        let ghost start = texts(headers@);
        let ghost entries = row@;
        let n = row.len();
        let mut k: usize = 0;
        assert(entries.take(0) =~= Entries::empty());
        while k < n
            invariant
                k <= n,
                n == entries.len(),
                entries == row@,
                texts(headers@) == with_keys(start, entries.take(k as int)),
            decreases n - k,
        {
            let ghost before = texts(headers@);
            proof {
                let next = entries.take(k + 1);
                assert(next.drop_last() == entries.take(k as int));
                assert(next.last() == entries[k as int]);
            }
            let key = row.key_at(k);
            if !contains_text(&headers, key.as_str()) {
                headers.push(key.clone());
                assert(texts(headers@) =~= before.push(key@));
            }
            k += 1;
        }
        assert(entries.take(entries.len() as int) == entries);
        i += 1;
    }
    assert(all.take(all.len() as int) == all);
    headers
}

/// The values of `row` under `headers`; with `quote` set, as
/// comma-separated values write them.
fn collect_cells(row: &SolutionRow, headers: &Vec<String>, quote: bool) -> (values: Vec<String>)
    ensures
        !quote ==> texts(values@) == cells(row@, texts(headers@)),
        quote ==> texts(values@) == csv_cells(row@, texts(headers@)),
{
    let mut values: Vec<String> = Vec::new();
    let mut i: usize = 0;
    while i < headers.len()
        invariant
            i <= headers.len(),
            values.len() == i,
            forall|k: int|
                0 <= k < i ==> (#[trigger] values@[k])@ == if quote {
                    csv_cell(cell(row@, headers@[k]@))
                } else {
                    cell(row@, headers@[k]@)
                },
        decreases headers.len() - i,
    {
        let value = match row.get(headers[i].as_str()) {
            Some(v) => v.clone(),
            None => String::new(),
        };
        if quote && contains(value.as_str(), ",") {
            let mut quoted = join2("\"", value.as_str());
            quoted.append("\"");
            values.push(quoted);
        } else {
            values.push(value);
        }
        i += 1;
    }
    if quote {
        assert(texts(values@) =~= csv_cells(row@, texts(headers@)));
    } else {
        assert(texts(values@) =~= cells(row@, texts(headers@)));
    }
    values
}

/// Writes a rule of `n` dashes.
fn rule_text(n: usize) -> (r: String)
    ensures
        r@ == rule(n as nat),
{
    let mut out = String::new();
    let mut i: usize = 0;
    while i < n
        invariant
            i <= n,
            out@ == rule(i as nat),
        decreases n - i,
    {
        push_char(&mut out, '\u{2500}');
        i += 1;
        assert(out@ =~= rule(i as nat));
    }
    out
}

/// Writes the lines of rows under `headers`, joined by `separator`.
fn row_lines(rows: &Vec<SolutionRow>, headers: &Vec<String>, separator: &str, quote: bool) -> (lines:
    Vec<String>)
    ensures
        lines.len() == rows.len(),
        forall|i: int|
            0 <= i < rows.len() ==> (#[trigger] lines@[i])@ == joined(
                if quote {
                    csv_cells(rows@[i]@, texts(headers@))
                } else {
                    cells(rows@[i]@, texts(headers@))
                },
                separator@,
            ),
{
    let mut lines: Vec<String> = Vec::new();
    let mut i: usize = 0;
    while i < rows.len()
        invariant
            i <= rows.len(),
            lines.len() == i,
            forall|k: int|
                0 <= k < i ==> (#[trigger] lines@[k])@ == joined(
                    if quote {
                        csv_cells(rows@[k]@, texts(headers@))
                    } else {
                        cells(rows@[k]@, texts(headers@))
                    },
                    separator@,
                ),
        decreases rows.len() - i,
    {
        let values = collect_cells(&rows[i], headers, quote);
        lines.push(join_all(&values, separator));
        i += 1;
    }
    lines
}

/// Writes a result as the lines of a table.
pub fn display_results_as_table(results: &SimpleSparqlResults) -> (lines: Vec<String>)
    ensures
        texts(lines@) == table_of(results@),
{
    match results {
        SimpleSparqlResults::Solutions(rows) => {
            let headers = collect_headers(rows);
            let mut lines: Vec<String> = Vec::new();
            lines.push(join_all(&headers, " | "));
            let width = if headers.len() > usize::MAX / 20 {
                usize::MAX
            } else {
                headers.len() * 20
            };
            lines.push(rule_text(width));
            let mut body = row_lines(rows, &headers, " | ", false);
            let ghost head = texts(lines@);
            let ghost tail = texts(body@);
            lines.append(&mut body);
            assert(texts(lines@) =~= head + tail);
            assert(texts(lines@) =~= table_lines(row_views(rows@)));
            lines
        },
        SimpleSparqlResults::Boolean(b) => {
            let mut lines: Vec<String> = Vec::new();
            if *b {
                lines.push("Result:  TRUE".to_string());
            } else {
                lines.push("Result:  FALSE".to_string());
            }
            assert(texts(lines@) =~= table_of(results@));
            lines
        },
    }
}

/// Writes a result as lines of comma-separated values.
pub fn display_results_as_csv(results: &SimpleSparqlResults) -> (lines: Vec<String>)
    ensures
        texts(lines@) == csv_of(results@),
{
    match results {
        SimpleSparqlResults::Solutions(rows) => {
            let headers = collect_headers(rows);
            let mut lines: Vec<String> = Vec::new();
            lines.push(join_all(&headers, ","));
            let mut body = row_lines(rows, &headers, ",", true);
            let ghost head = texts(lines@);
            let ghost tail = texts(body@);
            lines.append(&mut body);
            assert(texts(lines@) =~= head + tail);
            assert(texts(lines@) =~= csv_lines(row_views(rows@)));
            lines
        },
        SimpleSparqlResults::Boolean(b) => {
            let mut lines: Vec<String> = Vec::new();
            lines.push("result".to_string());
            lines.push(truth_text(*b).to_string());
            assert(texts(lines@) =~= csv_of(results@));
            lines
        },
    }
}

/// Writes a result as comment lines.
pub fn display_results_as_turtle(results: &SimpleSparqlResults) -> (lines: Vec<String>)
    ensures
        texts(lines@) == comments_of(results@),
{
    match results {
        SimpleSparqlResults::Solutions(rows) => {
            let ghost all = row_views(rows@);
            let mut lines: Vec<String> = Vec::new();
            lines.push("# SPARQL Solutions as Turtle-like format".to_string());
            let ghost head = texts(lines@);
            assert(head =~= seq!["# SPARQL Solutions as Turtle-like format"@]);
            let mut i: usize = 0;
            assert(texts(lines@) =~= head + rows_as_comments(all.take(0)));
            while i < rows.len()
                invariant
                    i <= rows.len(),
                    all == row_views(rows@),
                    texts(lines@) == head + rows_as_comments(all.take(i as int)),
                decreases rows.len() - i,
            {
                proof {
                    let next = all.take(i + 1);
                    assert(next.drop_last() == all.take(i as int));
                    assert(next.last() == rows@[i as int]@);
                }
                let row = &rows[i];
                let ghost start = texts(lines@);
                let ghost entries = row@;
                let n = row.len();
                let mut k: usize = 0;
                assert(texts(lines@) =~= start + comment_lines(entries).take(0));
                while k < n
                    invariant
                        k <= n,
                        n == entries.len(),
                        entries == row@,
                        texts(lines@) == start + comment_lines(entries).take(k as int),
                    decreases n - k,
                {
                    let ghost before = texts(lines@);
                    let mut line = join2("# ", row.key_at(k).as_str());
                    line.append(": ");
                    line.append(row.value_at(k).as_str());
                    let ghost l = line@;
                    lines.push(line);
                    assert(texts(lines@) =~= before.push(l));
                    assert(comment_lines(entries)[k as int] == l);
                    assert(start + comment_lines(entries).take(k + 1) =~= before.push(l));
                    k += 1;
                }
                let ghost filled = texts(lines@);
                lines.push(String::new());
                assert(texts(lines@) =~= filled.push(Seq::empty()));
                assert(comment_lines(entries).take(n as int) == comment_lines(entries));
                assert(texts(lines@) =~= head + rows_as_comments(all.take(i + 1)));
                i += 1;
            }
            assert(all.take(all.len() as int) == all);
            lines
        },
        SimpleSparqlResults::Boolean(b) => {
            let mut lines: Vec<String> = Vec::new();
            lines.push(join2("# Boolean result: ", truth_text(*b)));
            assert(texts(lines@) =~= comments_of(results@));
            lines
        },
    }
}

/// Builds the JSON value of a result.
pub fn results_as_json(results: &SimpleSparqlResults) -> (value: JsonValue)
    ensures
        value@ == json_of(results@),
{
    match results {
        SimpleSparqlResults::Solutions(rows) => {
            let mut items: Vec<JsonValue> = Vec::new();
            let mut i: usize = 0;
            while i < rows.len()
                invariant
                    i <= rows.len(),
                    items.len() == i,
                    forall|k: int|
                        0 <= k < i ==> (#[trigger] items@[k])@ == JsonModel::Object(
                            row_members(rows@[k]@),
                        ),
                decreases rows.len() - i,
            {
                let row = &rows[i];
                let ghost entries = row@;
                let n = row.len();
                let mut members: Vec<JsonMember> = Vec::new();
                let mut k: usize = 0;
                assert(members_model(members@) =~= row_members(entries.take(0)));
                while k < n
                    invariant
                        k <= n,
                        n == entries.len(),
                        entries == row@,
                        members_model(members@) == row_members(entries.take(k as int)),
                    decreases n - k,
                {
                    proof {
                        let next = entries.take(k + 1);
                        assert(next.drop_last() == entries.take(k as int));
                        assert(next.last() == entries[k as int]);
                    }
                    put_member(
                        &mut members,
                        row.key_at(k).clone(),
                        text_value(row.value_at(k).as_str()),
                    );
                    k += 1;
                }
                assert(entries.take(entries.len() as int) == entries);
                items.push(object_of(members));
                i += 1;
            }
            let value = list_of(items);
            assert(value@->List_0 =~= json_of(results@)->List_0);
            value
        },
        SimpleSparqlResults::Boolean(b) => {
            let mut members: Vec<JsonMember> = Vec::new();
            members.push(JsonMember { name: "result".to_string(), value: JsonValue::Bool(*b) });
            assert(members_model(members@) =~= seq![("result"@, JsonModel::Bool(*b))]);
            object_of(members)
        },
    }
}

/// Writes a result as indented JSON. The JSON writer does not fail on it.
pub fn display_results_as_json(results: &SimpleSparqlResults) -> (r: Result<String, String>)
    ensures
        r is Ok,
        r->Ok_0@ == pretty_json(json_of(results@)),
{
    let value = results_as_json(results);
    written(render_pretty(&value))
}

} // verus!
