use vstd::prelude::*;

verus! {

/// The table of strings the text decodes to, or `None` for any violation
/// of the expected shape: the text must parse as one JSON value, that
/// value must be an object with at least one property, the first
/// property's value (in the object's iteration order) must be an array,
/// and every element of that array must be an array of strings. Rows of
/// the wrong arity are not a shape violation here; their arity is checked
/// afterwards, in verified code.
///
/// Decoding is a function of the text alone — serde_json's parse is
/// deterministic and its object keeps its properties in a fixed
/// (key-sorted) order — so the outcome carries a name even though the
/// JSON grammar itself is not restated.
pub uninterp spec fn decoded_rows(s: Seq<char>) -> Option<Seq<Seq<Seq<char>>>>;

/// Relies on serde_json::from_str, Value::as_object, Map::values,
/// Value::as_array and Value::as_str: parse the text and pull out the
/// rows of the first property's array, reading each cell as a string.
/// The body only makes these calls, dispatches on the value's variants
/// and moves their fields; the result is the function of the text named
/// [`decoded_rows`].
#[verifier::external_body]
pub(crate) fn parse_rows(s: &str) -> (r: Option<Vec<Vec<String>>>)
    ensures
        r is Some <==> decoded_rows(s@) is Some,
        r matches Some(rows) ==> Some(rows.deep_view()) == decoded_rows(s@),
{
    let v: serde_json::Value = serde_json::from_str(s).ok()?;
    let top = v.as_object()?.values().next()?.as_array()?;
    let mut out: Vec<Vec<String>> = Vec::new();
    for row in top {
        let mut cells: Vec<String> = Vec::new();
        for cell in row.as_array()? {
            cells.push(cell.as_str()?.to_owned());
        }
        out.push(cells);
    }
    Some(out)
}

} // verus!
