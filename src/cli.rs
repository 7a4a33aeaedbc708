use vstd::prelude::*;

verus! {

/// The command line: where the operation lives, how it is called, the
/// sample bodies, and the layout of the output.
#[derive(Debug)]
pub struct Args {
    pub root: String,
    pub path: String,
    pub method: String,
    pub body: Option<String>,
    pub header: Vec<String>,
    pub query: Option<Vec<String>>,
    pub param: Option<Vec<String>>,
    pub gap: u8,
    pub comment: String,
    pub res: Option<String>,
    pub offset: u8,
}

/// What `str::to_uppercase` makes of a text.
pub uninterp spec fn upper_of(s: Seq<char>) -> Seq<char>;

/// Relies on str::to_uppercase: the uppercase form of a text.
#[verifier::external_body]
fn uppercase(s: &str) -> (r: String)
    ensures
        r@ == upper_of(s@),
{
    s.to_uppercase()
}

/// Reads a method name in upper case; it never fails.
pub fn to_uppercase(s: &str) -> (r: Result<String, String>)
    ensures
        r is Ok && r->Ok_0@ == upper_of(s@),
{
    Ok(uppercase(s))
}

} // verus!
