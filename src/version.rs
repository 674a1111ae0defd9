use vstd::prelude::*;

verus! {

/// Whether `b` is an ASCII digit.
pub open spec fn is_digit(b: u8) -> bool {
    48 <= b <= 57
}

/// The position of the first digit of `s` at or after `from`, or the length
/// of `s` where there is none.
pub open spec fn first_digit(s: Seq<u8>, from: int) -> int
    decreases s.len() - from,
{
    if from >= s.len() {
        s.len() as int
    } else if is_digit(s[from]) {
        from
    } else {
        first_digit(s, from + 1)
    }
}

/// The position of the first byte of `s` at or after `from` that is not a
/// digit, or the length of `s` where there is none.
pub open spec fn first_non_digit(s: Seq<u8>, from: int) -> int
    decreases s.len() - from,
{
    if from >= s.len() {
        s.len() as int
    } else if !is_digit(s[from]) {
        from
    } else {
        first_non_digit(s, from + 1)
    }
}

/// The number that the decimal digits `d` write.
pub open spec fn digits_value(d: Seq<u8>) -> nat
    decreases d.len(),
{
    if d.len() == 0 {
        0
    } else {
        digits_value(d.drop_last()) * 10 + (d.last() - 48) as nat
    }
}

/// The number that the digits `d` write, where it is a `u8`: at least one
/// digit and at most 255.
pub open spec fn digits_u8(d: Seq<u8>) -> Option<u8> {
    if d.len() > 0 && digits_value(d) <= 255 {
        Some(digits_value(d) as u8)
    } else {
        None
    }
}

/// The version `(major, minor)` that a version string of the graphics API
/// starts with: the first run of digits is the major version, the byte after
/// it separates it from the run of digits that is the minor version, and
/// anything after that is ignored.
pub open spec fn spec_parse_version(s: Seq<u8>) -> Option<(u8, u8)> {
    let start = first_digit(s, 0);
    let dot = first_non_digit(s, start);
    let end = first_non_digit(s, dot + 1);
    if dot >= s.len() {
        None
    } else {
        match (digits_u8(s.subrange(start, dot)), digits_u8(s.subrange(dot + 1, end))) {
            (Some(major), Some(minor)) => Some((major, minor)),
            _ => None,
        }
    }
}

proof fn lemma_first_digit_bounds(s: Seq<u8>, from: int)
    requires
        0 <= from <= s.len(),
    ensures
        from <= first_digit(s, from) <= s.len(),
    decreases s.len() - from,
{
    if from < s.len() && !is_digit(s[from]) {
        lemma_first_digit_bounds(s, from + 1);
    }
}

proof fn lemma_first_non_digit_bounds(s: Seq<u8>, from: int)
    requires
        0 <= from <= s.len(),
    ensures
        from <= first_non_digit(s, from) <= s.len(),
        forall|k: int| from <= k < first_non_digit(s, from) ==> is_digit(s[k]),
    decreases s.len() - from,
{
    if from < s.len() && is_digit(s[from]) {
        lemma_first_non_digit_bounds(s, from + 1);
    }
}

/// The position of the first digit of `s` at or after `from`.
fn find_digit(s: &[u8], from: usize) -> (r: usize)
    requires
        from <= s@.len(),
    ensures
        r == first_digit(s@, from as int),
{
    let mut k = from;
    while k < s.len() && !(48 <= s[k] && s[k] <= 57)
        invariant
            from <= k <= s@.len(),
            first_digit(s@, k as int) == first_digit(s@, from as int),
        decreases s@.len() - k,
    {
        k += 1;
    }
    k
}

/// The position of the first byte of `s` at or after `from` that is not a
/// digit.
fn find_non_digit(s: &[u8], from: usize) -> (r: usize)
    requires
        from <= s@.len(),
    ensures
        r == first_non_digit(s@, from as int),
{
    let mut k = from;
    while k < s.len() && 48 <= s[k] && s[k] <= 57
        invariant
            from <= k <= s@.len(),
            first_non_digit(s@, k as int) == first_non_digit(s@, from as int),
        decreases s@.len() - k,
    {
        k += 1;
    }
    k
}

/// The `u8` that the digits `s[from..to]` write.
fn parse_u8(s: &[u8], from: usize, to: usize) -> (r: Option<u8>)
    requires
        from <= to <= s@.len(),
        forall|k: int| from <= k < to ==> is_digit(s@[k]),
    ensures
        r == digits_u8(s@.subrange(from as int, to as int)),
{
    let mut acc: u32 = 0;
    let mut k = from;
    while k < to
        invariant
            from <= k <= to <= s@.len(),
            forall|j: int| from <= j < to ==> is_digit(s@[j]),
            acc == if digits_value(s@.subrange(from as int, k as int)) < 256 {
                digits_value(s@.subrange(from as int, k as int))
            } else {
                256
            },
        decreases to - k,
    {
        proof {
            assert(s@.subrange(from as int, k + 1).drop_last() =~= s@.subrange(
                from as int,
                k as int,
            ));
        }
        let d = (s[k] - 48) as u32;
        acc = if acc * 10 + d < 256 {
            acc * 10 + d
        } else {
            256
        };
        k += 1;
    }
    if k > from && acc < 256 {
        Some(acc as u8)
    } else {
        None
    }
}

/// Parses the `(major, minor)` version at the start of a version string of
/// the graphics API, such as `4.6.0 NVIDIA 535.113.01`.
pub fn parse_version_number(s: &[u8]) -> (r: Option<(u8, u8)>)
    ensures
        r == spec_parse_version(s@),
{
    let start = find_digit(s, 0);
    proof {
        lemma_first_digit_bounds(s@, 0);
        lemma_first_non_digit_bounds(s@, start as int);
    }
    let dot = find_non_digit(s, start);
    if dot >= s.len() {
        return None;
    }
    let end = find_non_digit(s, dot + 1);
    proof {
        lemma_first_non_digit_bounds(s@, dot + 1);
    }
    let major = parse_u8(s, start, dot);
    let minor = parse_u8(s, dot + 1, end);
    match (major, minor) {
        (Some(a), Some(b)) => Some((a, b)),
        _ => None,
    }
}

} // verus!
