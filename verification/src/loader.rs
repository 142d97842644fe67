use vstd::prelude::*;

verus! {

/// What reading a compiled program's JSON yields: each node's name and tags,
/// in ascending node-name order (the parsed document's node table is a map
/// ordered by key), or the message of the first syntax or shape fault. A
/// function of the text alone.
pub uninterp spec fn nodes_of_program_json(s: Seq<char>) -> Result<
    Seq<(Seq<char>, Seq<Seq<char>>)>,
    Seq<char>,
>;

/// Relies on serde_json::from_str: parses the compiled program's JSON and
/// reads each node's name and its tags out of the program's node table. The
/// read is tolerant: a node without a tag list has no tags, and a tag that is
/// not a string is dropped rather than rejected. The parse and the reads
/// depend on the text alone.
#[verifier::external_body]
pub(crate) fn extract_program_nodes(source: &str) -> (r: Result<
    Vec<(String, Vec<String>)>,
    String,
>)
    ensures
        match r {
            Ok(v) => nodes_of_program_json(source@) matches Ok(entries) && v.deep_view()
                == entries,
            Err(e) => nodes_of_program_json(source@) matches Err(message) && e@ == message,
        },
{
    let value: serde_json::Value = serde_json::from_str(source).map_err(|e| e.to_string())?;
    let nodes = match value.get("nodes").and_then(serde_json::Value::as_object) {
        Some(m) => m,
        None => return Err(String::from("the program JSON holds no nodes object")),
    };
    let mut out = Vec::new();
    for (name, node) in nodes {
        let tags = node.get("tags").and_then(serde_json::Value::as_array);
        let tags = tags.map(|a| a.iter().filter_map(|t| t.as_str().map(str::to_owned)).collect());
        out.push((name.clone(), tags.unwrap_or_default()));
    }
    Ok(out)
}

} // verus!
