//! The resampling filters, and the two ways callers name one: by number
//! across the JavaScript boundary and by word on the command line.
use vstd::prelude::*;
use vstd::string::*;

verus! {

/// How the filter weights fall off with distance from the sample centre.
#[derive(Clone, Copy, PartialEq, Eq, Debug, Structural)]
pub enum Filter {
    /// Area average. Zero ringing by construction, since no weight is negative,
    /// and exactly the analytic answer when the reduction is an integer factor.
    Box,
    /// Windowed sinc, three lobes. Sharper than Box and it rings, because the
    /// lobes are negative.
    Lanczos3,
    /// Cubic with B=C=1/3. Between the two: mild ringing, less softening.
    /// Approximating rather than interpolating, so it is not identity at unit
    /// scale.
    Mitchell,
}

/// The filter a numeric id names: 0 Box, 1 Lanczos3, 2 Mitchell, and Box for
/// any other id.
pub open spec fn filter_with_id(id: u8) -> Filter {
    match id {
        1 => Filter::Lanczos3,
        2 => Filter::Mitchell,
        _ => Filter::Box,
    }
}

/// The filter a command-line word names, if any.
pub open spec fn filter_named(name: Seq<char>) -> Option<Filter> {
    if name == "box"@ {
        Some(Filter::Box)
    } else if name == "lanczos3"@ {
        Some(Filter::Lanczos3)
    } else if name == "mitchell"@ {
        Some(Filter::Mitchell)
    } else {
        None
    }
}

/// The filter a numeric id names: 0 Box, 1 Lanczos3, 2 Mitchell. Any other
/// id falls back to Box.
pub fn filter(id: u8) -> (f: Filter)
    ensures
        f == filter_with_id(id),
{
    match id {
        0 => Filter::Box,
        1 => Filter::Lanczos3,
        2 => Filter::Mitchell,
        _ => Filter::Box,
    }
}

/// Whether two strings hold the same characters.
fn same_chars(a: &str, b: &str) -> (r: bool)
    ensures
        r == (a@ == b@),
{
    let n = a.unicode_len();
    if n != b.unicode_len() {
        return false;
    }
    let mut i: usize = 0;
    while i < n
        invariant
            0 <= i <= n,
            n == a@.len(),
            n == b@.len(),
            forall|j: int| 0 <= j < i ==> a@[j] == b@[j],
        decreases n - i,
    {
        if a.get_char(i) != b.get_char(i) {
            return false;
        }
        i += 1;
    }
    assert(a@ =~= b@);
    true
}

/// The filter a command-line word names: `box`, `lanczos3` or `mitchell`.
pub fn parse_filter(s: &str) -> (f: Filter)
    requires
        filter_named(s@) is Some,
    ensures
        filter_named(s@) == Some(f),
{
    if same_chars(s, "box") {
        Filter::Box
    } else if same_chars(s, "lanczos3") {
        Filter::Lanczos3
    } else {
        Filter::Mitchell
    }
}

} // verus!
