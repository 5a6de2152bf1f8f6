use vstd::prelude::*;

verus! {

/// The four bytes at `i` read as a synchsafe integer: seven significant
/// bits per byte, most significant byte first.
pub open spec fn synchsafe_at(b: Seq<u8>, i: int) -> int {
    (b[i] % 128) as int * 0x200000 + (b[i + 1] % 128) as int * 0x4000 + (b[i + 2] % 128) as int
        * 0x80 + (b[i + 3] % 128) as int
}

/// The four bytes at `i` read as a big-endian integer.
pub open spec fn be32_at(b: Seq<u8>, i: int) -> int {
    b[i] as int * 0x1000000 + b[i + 1] as int * 0x10000 + b[i + 2] as int * 0x100 + b[i + 3] as int
}

/// The three bytes at `i` read as a big-endian integer.
pub open spec fn be24_at(b: Seq<u8>, i: int) -> int {
    b[i] as int * 0x10000 + b[i + 1] as int * 0x100 + b[i + 2] as int
}

/// The four bytes at `i` read as a little-endian integer.
pub open spec fn le32_at(b: Seq<u8>, i: int) -> int {
    b[i] as int + b[i + 1] as int * 0x100 + b[i + 2] as int * 0x10000 + b[i + 3] as int * 0x1000000
}

/// Position of the first zero byte at or after `i`.
pub open spec fn zero_from(b: Seq<u8>, i: int) -> Option<int>
    decreases b.len() - i,
{
    if i < 0 || i >= b.len() {
        None
    } else if b[i] == 0 {
        Some(i)
    } else {
        zero_from(b, i + 1)
    }
}

/// Position of the first pair of zero bytes among the pairs that start at
/// `i`, `i + 2`, `i + 4`, ...
pub open spec fn zero16_from(b: Seq<u8>, i: int) -> Option<int>
    decreases b.len() - i,
{
    if i < 0 || i + 1 >= b.len() {
        None
    } else if b[i] == 0 && b[i + 1] == 0 {
        Some(i)
    } else {
        zero16_from(b, i + 2)
    }
}

/// Length of `b` once its trailing NUL and space bytes are removed.
pub open spec fn trimmed_len(b: Seq<u8>) -> nat
    decreases b.len(),
{
    if b.len() == 0 {
        0
    } else if b.last() == 0 || b.last() == 0x20 {
        trimmed_len(b.drop_last())
    } else {
        b.len()
    }
}

pub fn synchsafe_u32(b: &[u8], i: usize) -> (r: u32)
    requires
        i + 4 <= b@.len(),
    ensures
        r == synchsafe_at(b@, i as int),
{
    (b[i] % 128) as u32 * 0x200000 + (b[i + 1] % 128) as u32 * 0x4000 + (b[i + 2] % 128) as u32
        * 0x80 + (b[i + 3] % 128) as u32
}

pub fn be_u32(b: &[u8], i: usize) -> (r: u32)
    requires
        i + 4 <= b@.len(),
    ensures
        r == be32_at(b@, i as int),
{
    b[i] as u32 * 0x1000000 + b[i + 1] as u32 * 0x10000 + b[i + 2] as u32 * 0x100 + b[i + 3] as u32
}

pub fn be_u24(b: &[u8], i: usize) -> (r: u32)
    requires
        i + 3 <= b@.len(),
    ensures
        r == be24_at(b@, i as int),
        r < 0x1000000,
{
    b[i] as u32 * 0x10000 + b[i + 1] as u32 * 0x100 + b[i + 2] as u32
}

pub fn le_u32(b: &[u8], i: usize) -> (r: u32)
    requires
        i + 4 <= b@.len(),
    ensures
        r == le32_at(b@, i as int),
{
    b[i] as u32 + b[i + 1] as u32 * 0x100 + b[i + 2] as u32 * 0x10000 + b[i + 3] as u32 * 0x1000000
}

pub fn find_zero(b: &[u8], start: usize) -> (r: Option<usize>)
    requires
        start <= b@.len(),
    ensures
        match r {
            Some(k) => zero_from(b@, start as int) == Some(k as int),
            None => zero_from(b@, start as int) is None,
        },
{
    let mut i: usize = start;
    while i < b.len()
        invariant
            start <= i <= b@.len(),
            zero_from(b@, start as int) == zero_from(b@, i as int),
        decreases b@.len() - i,
    {
        if b[i] == 0 {
            return Some(i);
        }
        i = i + 1;
    }
    None
}

pub fn find_zero_utf16(b: &[u8], start: usize) -> (r: Option<usize>)
    requires
        start <= b@.len(),
    ensures
        match r {
            Some(k) => zero16_from(b@, start as int) == Some(k as int),
            None => zero16_from(b@, start as int) is None,
        },
{
    let mut i: usize = start;
    while i < b.len() && i + 1 < b.len()
        invariant
            start <= i,
            zero16_from(b@, start as int) == zero16_from(b@, i as int),
        decreases b@.len() - i,
    {
        if b[i] == 0 && b[i + 1] == 0 {
            return Some(i);
        }
        i = i + 2;
    }
    None
}

/// Length of the bytes `b[from..to]` once trailing NUL and space bytes are removed.
pub fn trim_trailing_zeros(b: &[u8], from: usize, to: usize) -> (r: usize)
    requires
        from <= to <= b@.len(),
    ensures
        r == trimmed_len(b@.subrange(from as int, to as int)),
        r <= to - from,
{
    let mut end: usize = to;
    while end > from && (b[end - 1] == 0 || b[end - 1] == 0x20)
        invariant
            from <= end <= to <= b@.len(),
            trimmed_len(b@.subrange(from as int, to as int)) == trimmed_len(
                b@.subrange(from as int, end as int),
            ),
        decreases end,
    {
        assert(b@.subrange(from as int, end as int).drop_last() =~= b@.subrange(
            from as int,
            end - 1,
        ));
        end = end - 1;
    }
    end - from
}

/// Position of the first byte equal to `x` at or after `i`.
pub open spec fn byte_from(b: Seq<u8>, i: int, x: u8) -> Option<int>
    decreases b.len() - i,
{
    if i < 0 || i >= b.len() {
        None
    } else if b[i] == x {
        Some(i)
    } else {
        byte_from(b, i + 1, x)
    }
}

pub fn find_byte(b: &[u8], x: u8) -> (r: Option<usize>)
    ensures
        match r {
            Some(k) => byte_from(b@, 0, x) == Some(k as int) && k < b@.len(),
            None => byte_from(b@, 0, x) is None,
        },
{
    let mut i: usize = 0;
    while i < b.len()
        invariant
            i <= b@.len(),
            byte_from(b@, 0, x) == byte_from(b@, i as int, x),
        decreases b@.len() - i,
    {
        if b[i] == x {
            return Some(i);
        }
        i = i + 1;
    }
    None
}

} // verus!
