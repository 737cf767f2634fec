use vstd::prelude::*;

verus! {

/// The decoded request fields as the transport collaborator hands them
/// over: absent fields arrive as true-absent options.
#[derive(Clone, Debug)]
pub struct PmsQueryParams {
    pub mode: String,
    pub room: Option<String>,
    pub oldroom: Option<String>,
    pub name: Option<String>,
    pub pass: Option<String>,
    pub rsvno: Option<String>,
    pub cidate: Option<String>,
    pub codate: Option<String>,
    pub cotime: Option<String>,
    pub gtype: Option<String>,
}

/// The uniform reply of the engine: a status of `success` or `error`
/// and a human-readable message.
#[derive(Clone, Debug)]
pub struct PmsResponse {
    pub status: String,
    pub message: String,
}

/// The characters of an optional string, kept optional.
pub open spec fn opt_view(o: Option<String>) -> Option<Seq<char>> {
    match o {
        Some(s) => Some(s@),
        None => None,
    }
}

} // verus!
