use vstd::prelude::*;
use vstd::string::*;

verus! {

/// The elements as character sequences.
pub open spec fn texts(elements: Seq<String>) -> Seq<Seq<char>> {
    elements.map_values(|s: String| s@)
}

/// The cells of one row: each element between `open` and `close`.
pub open spec fn cells(row: Seq<Seq<char>>, open: Seq<char>, close: Seq<char>) -> Seq<char>
    decreases row.len(),
{
    if row.len() == 0 {
        Seq::empty()
    } else {
        cells(row.drop_last(), open, close) + open + row.last() + close
    }
}

/// The rows from element `start` on, `size` elements to a row (the last row
/// may be shorter).
pub open spec fn rows_from(es: Seq<Seq<char>>, size: nat, start: int, open: Seq<char>, close: Seq<char>) -> Seq<char>
    decreases (if start < es.len() { es.len() - start } else { 0 }),
{
    if size == 0 || start >= es.len() || start < 0 {
        Seq::empty()
    } else {
        let end: int = if start + size < es.len() { start + size } else { es.len() as int };
        "[tr]"@ + cells(es.subrange(start, end), open, close) + "[/tr]"@ + rows_from(es, size, start + size, open, close)
    }
}

/// A forum table without header of the elements, `size` to a row.
pub open spec fn grid_spec(es: Seq<Seq<char>>, size: nat, open: Seq<char>, close: Seq<char>) -> Seq<char> {
    "[table=noheader]"@ + rows_from(es, size, 0, open, close) + "[/table]"@
}

fn grid(elements: &Vec<String>, chunk_size: usize, open: &str, close: &str) -> (out: String)
    requires
        chunk_size > 0,
    ensures
        out@ == grid_spec(texts(elements@), chunk_size as nat, open@, close@),
{
    let ghost es = texts(elements@);
    let mut out = String::new();
    out.append("[table=noheader]");
    let mut start: usize = 0;
    while start < elements.len()
        invariant
            chunk_size > 0,
            es == texts(elements@),
            start <= elements.len(),
            out@ + rows_from(es, chunk_size as nat, start as int, open@, close@)
                == "[table=noheader]"@ + rows_from(es, chunk_size as nat, 0, open@, close@),
        decreases elements.len() - start,
    {
        let end: usize = if chunk_size < elements.len() - start { start + chunk_size } else { elements.len() };
        let ghost before = out@;
        out.append("[tr]");
        let mut k: usize = start;
        while k < end
            invariant
                start <= k <= end <= elements.len(),
                es == texts(elements@),
                out@ == before + "[tr]"@ + cells(es.subrange(start as int, k as int), open@, close@),
            decreases end - k,
        {
            let ghost row_before = out@;
            out.append(open);
            out.append(elements[k].as_str());
            out.append(close);
            assert(es.subrange(start as int, k + 1).drop_last() == es.subrange(start as int, k as int));
            assert(es[k as int] == elements@[k as int]@);
            assert(out@ =~= row_before + open@ + es.subrange(start as int, k + 1).last() + close@);
            k = k + 1;
        }
        out.append("[/tr]");
        assert(out@ =~= before + ("[tr]"@ + cells(es.subrange(start as int, end as int), open@, close@) + "[/tr]"@));
        assert(rows_from(es, chunk_size as nat, start as int, open@, close@)
            == "[tr]"@ + cells(es.subrange(start as int, end as int), open@, close@) + "[/tr]"@
                + rows_from(es, chunk_size as nat, start + chunk_size, open@, close@));
        assert(rows_from(es, chunk_size as nat, start + chunk_size, open@, close@)
            == rows_from(es, chunk_size as nat, end as int, open@, close@));
        start = end;
    }
    let ghost before = out@;
    out.append("[/table]");
    assert(out@ =~= grid_spec(es, chunk_size as nat, open@, close@));
    out
}

/// The elements as a table, `chunk_size` to a row, each in a plain cell.
pub fn table(elements: Vec<String>, chunk_size: usize) -> (out: String)
    requires
        chunk_size > 0,
    ensures
        out@ == grid_spec(texts(elements@), chunk_size as nat, "[td]"@, "[/td]"@),
{
    grid(&elements, chunk_size, "[td]", "[/td]")
}

/// The nation names as a table, `chunk_size` to a row, each cell a nation link.
pub fn nation_table(nations: Vec<String>, chunk_size: usize) -> (out: String)
    requires
        chunk_size > 0,
    ensures
        out@ == grid_spec(texts(nations@), chunk_size as nat, "[td][nation]"@, "[/nation][/td]"@),
{
    grid(&nations, chunk_size, "[td][nation]", "[/nation][/td]")
}

} // verus!
