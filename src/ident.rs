use vstd::prelude::*;
use vstd::string::StrSliceExecFns;

verus! {

/// The final component of a path, when it has one that is valid Unicode.
pub uninterp spec fn file_name_of(path: Seq<char>) -> Option<Seq<char>>;

/// Relies on `Path::file_name` and `OsStr::to_str`: the last component of the
/// path, if it is a normal component.
#[verifier::external_body]
fn file_name(path: &str) -> (r: Option<String>)
    ensures
        r matches Some(n) ==> file_name_of(path@) == Some(n@),
        r is None ==> file_name_of(path@) is None,
{
    std::path::Path::new(path).file_name().and_then(|n| n.to_str()).map(String::from)
}

pub open spec fn is_digit(c: char) -> bool {
    48 <= (c as u32) && (c as u32) <= 57
}

/// The number that the decimal digits `d` spell.
pub open spec fn digits_value(d: Seq<char>) -> int
    decreases d.len(),
{
    if d.len() == 0 {
        0
    } else {
        digits_value(d.drop_last()) * 10 + ((d.last() as u32) - 48)
    }
}

/// A base-10 unsigned 64-bit number: an optional `+`, then one or more
/// decimal digits whose value fits in 64 bits.
pub open spec fn decimal_u64(s: Seq<char>) -> Option<u64> {
    let d = if s.len() > 0 && s[0] == '+' {
        s.drop_first()
    } else {
        s
    };
    if d.len() > 0 && (forall|i: int| 0 <= i < d.len() ==> is_digit(#[trigger] d[i]))
        && digits_value(d) <= u64::MAX {
        Some(digits_value(d) as u64)
    } else {
        None
    }
}

/// Relies on `u64::from_str_radix` with radix 10: it accepts an optional `+`
/// and then decimal digits, and fails on anything else, on no digits, and on
/// overflow.
#[verifier::external_body]
fn parse_decimal(s: &str) -> (r: Option<u64>)
    ensures
        r == decimal_u64(s@),
{
    u64::from_str_radix(s, 10).ok()
}

/// Two underscores start at `i`.
pub open spec fn separator_at(s: Seq<char>, i: int) -> bool {
    0 <= i && i + 1 < s.len() && s[i] == '_' && s[i + 1] == '_'
}

pub open spec fn first_separator(s: Seq<char>, k: int) -> bool {
    separator_at(s, k) && forall|j: int| 0 <= j < k ==> !separator_at(s, j)
}

pub open spec fn first_dot_or_end(s: Seq<char>, k: int) -> bool {
    0 <= k <= s.len() && (k == s.len() || s[k] == '.') && forall|j: int| 0 <= j < k ==> s[j] != '.'
}

/// The part of a file name that holds the identifier: the text before the
/// first `__` if there is one, else the text before the first `.`.
pub open spec fn id_part(name: Seq<char>) -> Seq<char> {
    if exists|i: int| separator_at(name, i) {
        name.take(choose|k: int| first_separator(name, k))
    } else {
        name.take(choose|k: int| first_dot_or_end(name, k))
    }
}

/// The identifier a file name carries, if any.
pub open spec fn id_of_name(name: Seq<char>) -> Option<u64> {
    decimal_u64(id_part(name))
}

fn identifier_text(name: &str) -> (r: &str)
    ensures
        r@ == id_part(name@),
{
    let n = name.unicode_len();
    let mut i: usize = 0;
    while n > 0 && i < n - 1
        invariant
            n == name@.len(),
            i <= n,
            forall|j: int| 0 <= j < i ==> !separator_at(name@, j),
        decreases n - i,
    {
        if name.get_char(i) == '_' && name.get_char(i + 1) == '_' {
            proof {
                assert(first_separator(name@, i as int));
                let k = choose|k: int| first_separator(name@, k);
                assert(k == i) by {
                    if k > i {
                        assert(!separator_at(name@, i as int));
                    }
                }
            }
            return name.substring_char(0, i);
        }
        i = i + 1;
    }
    assert(!(exists|j: int| separator_at(name@, j)));
    let mut k: usize = 0;
    while k < n && name.get_char(k) != '.'
        invariant
            n == name@.len(),
            k <= n,
            forall|j: int| 0 <= j < k ==> name@[j] != '.',
        decreases n - k,
    {
        k = k + 1;
    }
    proof {
        assert(first_dot_or_end(name@, k as int));
        let c = choose|c: int| first_dot_or_end(name@, c);
        assert(c == k) by {
            if c > k {
                assert(name@[k as int] == '.');
            }
        }
    }
    name.substring_char(0, k)
}

/// The identifier carried by a file name: the text before the first `__`,
/// or else before the first `.`, read as a base-10 unsigned 64-bit number.
pub fn id_from_file_name(name: &str) -> (r: Option<u64>)
    ensures
        r == id_of_name(name@),
{
    parse_decimal(identifier_text(name))
}

/// The identifier carried by the file name of `filepath`; `None` when the
/// path has no file name or the name carries no identifier.
pub fn id_from_filepath(filepath: &str) -> (r: Option<u64>)
    ensures
        r == (match file_name_of(filepath@) {
            Some(n) => id_of_name(n),
            None => None,
        }),
{
    match file_name(filepath) {
        Some(n) => id_from_file_name(n.as_str()),
        None => None,
    }
}

} // verus!
