use vstd::prelude::*;
use vstd::string::*;

verus! {

/// The order in which the cells of the grid are listed.
///
/// `Horizontal` lists the grid column by column (all rows of column 0, then
/// column 1, ...); `Vertical` lists it row by row (all columns of row 0, then
/// row 1, ...).
#[derive(Clone, Copy, Debug, PartialEq, Eq, Structural)]
pub enum ListDirection {
    Horizontal,
    Vertical,
}

/// A direction token that names no direction.
#[derive(Clone, Copy, Debug, PartialEq, Eq, Structural)]
pub enum ListDirectionParseError {
    UnknownDirection,
}

impl Default for ListDirection {
    fn default() -> (r: Self)
        ensures
            r == ListDirection::Horizontal,
    {
        ListDirection::Horizontal
    }
}

/// Whether two strings hold the same characters.
fn same_text(s: &str, t: &str) -> (r: bool)
    ensures
        r == (s@ == t@),
{
    let n = s.unicode_len();
    if n != t.unicode_len() {
        return false;
    }
    let mut i: usize = 0;
    while i < n
        invariant
            n == s@.len(),
            n == t@.len(),
            i <= n,
            s@.subrange(0, i as int) == t@.subrange(0, i as int),
        decreases n - i,
    {
        if s.get_char(i) != t.get_char(i) {
            assert(s@[i as int] != t@[i as int]);
            return false;
        }
        assert(s@.subrange(0, i + 1) =~= s@.subrange(0, i as int).push(s@[i as int]));
        assert(t@.subrange(0, i + 1) =~= t@.subrange(0, i as int).push(t@[i as int]));
        i = i + 1;
    }
    assert(s@ =~= s@.subrange(0, n as int));
    assert(t@ =~= t@.subrange(0, n as int));
    true
}

impl ListDirection {
    /// Reads a direction from its exact, case-sensitive token: `horizontal` or
    /// `vertical`.
    pub fn from_str(s: &str) -> (r: Result<ListDirection, ListDirectionParseError>)
        ensures
            s@ == "horizontal"@ ==> r == Ok::<ListDirection, ListDirectionParseError>(
                ListDirection::Horizontal,
            ),
            s@ == "vertical"@ ==> r == Ok::<ListDirection, ListDirectionParseError>(
                ListDirection::Vertical,
            ),
            s@ != "horizontal"@ && s@ != "vertical"@ ==> r == Err::<
                ListDirection,
                ListDirectionParseError,
            >(ListDirectionParseError::UnknownDirection),
    {
        proof {
            reveal_strlit("horizontal");
            reveal_strlit("vertical");
            assert("horizontal"@.len() != "vertical"@.len());
        }
        if same_text(s, "horizontal") {
            Ok(ListDirection::Horizontal)
        } else if same_text(s, "vertical") {
            Ok(ListDirection::Vertical)
        } else {
            Err(ListDirectionParseError::UnknownDirection)
        }
    }
}

impl ListDirectionParseError {
    /// The message that reports this error to a user.
    pub fn message(&self) -> (r: &'static str)
        ensures
            r@ == "Unknown direction"@,
    {
        match self {
            ListDirectionParseError::UnknownDirection => "Unknown direction",
        }
    }
}

} // verus!
