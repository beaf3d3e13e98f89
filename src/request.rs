use vstd::prelude::*;

use crate::extent::TileCoord;

verus! {

/// Why a tile URL could not be built.
#[derive(Debug, Clone, Copy, PartialEq, Eq, Structural)]
pub enum UrlError {
    /// A named location was asked for without a zoom level.
    ZoomRequired,
}

/// Why a request header could not be parsed.
#[derive(Debug, Clone, Copy, PartialEq, Eq, Structural)]
pub enum HeaderError {
    /// The header has no `:` between name and value.
    MissingColon,
}

/// Whether `p` occurs in `s`.
pub open spec fn occurs_in(s: Seq<char>, p: Seq<char>) -> bool {
    exists|i: int| 0 <= i && i + p.len() <= s.len() && #[trigger] s.subrange(i, i + p.len()) == p
}

/// `s` with every non-overlapping occurrence of a non-empty `from`, scanned
/// from the left, replaced by `to`.
pub open spec fn replace_all(s: Seq<char>, from: Seq<char>, to: Seq<char>) -> Seq<char>
    decreases s.len(),
{
    if from.len() == 0 || s.len() < from.len() {
        s
    } else if s.subrange(0, from.len() as int) == from {
        to + replace_all(s.skip(from.len() as int), from, to)
    } else {
        seq![s[0]] + replace_all(s.skip(1), from, to)
    }
}

pub open spec fn digit_char(d: nat) -> char {
    seq!['0', '1', '2', '3', '4', '5', '6', '7', '8', '9'][d as int]
}

/// The decimal digits of `n`, without sign or leading zeros.
pub open spec fn decimal(n: nat) -> Seq<char>
    decreases n,
{
    if n < 10 {
        seq![digit_char(n)]
    } else {
        decimal(n / 10) + seq![digit_char(n % 10)]
    }
}

/// Relies on `str::contains` with a string pattern: whether the pattern occurs
/// in the string.
#[verifier::external_body]
fn contains_str(s: &str, p: &str) -> (r: bool)
    ensures
        r == occurs_in(s@, p@),
{
    s.contains(p)
}

/// Relies on `str::replace` with a string pattern: a new string with every
/// non-overlapping match, from the left, replaced.
#[verifier::external_body]
fn replace_str(s: &str, from: &str, to: &str) -> (r: String)
    requires
        from@.len() > 0,
    ensures
        r@ == replace_all(s@, from@, to@),
{
    s.replace(from, to)
}

/// Relies on `ToString` for `u32` (through `Display`): its decimal digits.
#[verifier::external_body]
fn decimal_string(n: u32) -> (r: String)
    ensures
        r@ == decimal(n as nat),
{
    n.to_string()
}

/// Whether a URL holds any of the placeholders `{z}`, `{x}`, `{y}`.
pub fn needs_tile(url: &str) -> (r: bool)
    ensures
        r == (occurs_in(url@, "{z}"@) || occurs_in(url@, "{x}"@) || occurs_in(url@, "{y}"@)),
{
    contains_str(url, "{z}") || contains_str(url, "{x}") || contains_str(url, "{y}")
}

/// The zoom level to use: a named location needs one to be given; otherwise
/// a missing zoom means zero.
pub fn select_zoom(uses_location: bool, zoom: Option<u32>) -> (r: Result<u32, UrlError>)
    ensures
        uses_location && zoom is None ==> r == Err::<u32, UrlError>(UrlError::ZoomRequired),
        uses_location && zoom is Some ==> r == Ok::<u32, UrlError>(zoom->0),
        !uses_location && zoom is Some ==> r == Ok::<u32, UrlError>(zoom->0),
        !uses_location && zoom is None ==> r == Ok::<u32, UrlError>(0),
{
    match zoom {
        Some(z) => Ok(z),
        None => if uses_location {
            Err(UrlError::ZoomRequired)
        } else {
            Ok(0)
        },
    }
}

/// The URL with `{z}`, `{x}` and `{y}` replaced, in that order, by the
/// tile's zoom, column and row in decimal.
pub fn fill_template(url: &str, tile: TileCoord) -> (r: String)
    ensures
        r@ == replace_all(
            replace_all(replace_all(url@, "{z}"@, decimal(tile.z as nat)), "{x}"@, decimal(tile.x as nat)),
            "{y}"@,
            decimal(tile.y as nat),
        ),
{
    proof {
        reveal_strlit("{z}");
        reveal_strlit("{x}");
        reveal_strlit("{y}");
    }
    let z = decimal_string(tile.z);
    let x = decimal_string(tile.x);
    let y = decimal_string(tile.y);
    let with_z = replace_str(url, "{z}", z.as_str());
    let with_x = replace_str(with_z.as_str(), "{x}", x.as_str());
    replace_str(with_x.as_str(), "{y}", y.as_str())
}

/// Index of the first `:` in `s`, or `s.len()` if there is none.
pub open spec fn colon_index(s: Seq<char>) -> int
    decreases s.len(),
{
    if s.len() == 0 {
        0
    } else if s[0] == ':' {
        0
    } else {
        1 + colon_index(s.skip(1))
    }
}

/// What `str::trim` leaves of a string: leading and trailing white space
/// removed.
pub uninterp spec fn trimmed(s: Seq<char>) -> Seq<char>;

/// Relies on `str::split_once` with a `char` pattern: the parts before and
/// after the first occurrence, or `None` when it does not occur.
#[verifier::external_body]
fn split_at_colon(s: &str) -> (r: Option<(&str, &str)>)
    ensures
        r is None <==> !s@.contains(':'),
        r is Some ==> (r->0).0@ == s@.subrange(0, colon_index(s@)) && (r->0).1@ == s@.skip(
            colon_index(s@) + 1,
        ),
{
    s.split_once(':')
}

/// Relies on `str::trim`: the string without leading and trailing white
/// space.
#[verifier::external_body]
fn trim_str(s: &str) -> (r: &str)
    ensures
        r@ == trimmed(s@),
{
    s.trim()
}

/// Parses a request header written `Name: Value` into its trimmed name and
/// value, split at the first `:`.
pub fn parse_header(header: &str) -> (r: Result<(String, String), HeaderError>)
    ensures
        r is Err <==> !header@.contains(':'),
        r is Err ==> r->Err_0 == HeaderError::MissingColon,
        r is Ok ==> (r->Ok_0).0@ == trimmed(header@.subrange(0, colon_index(header@))),
        r is Ok ==> (r->Ok_0).1@ == trimmed(header@.skip(colon_index(header@) + 1)),
{
    match split_at_colon(header) {
        Some((name, value)) => {
            let n = trim_str(name).to_owned();
            let v = trim_str(value).to_owned();
            Ok((n, v))
        },
        None => Err(HeaderError::MissingColon),
    }
}

} // verus!
