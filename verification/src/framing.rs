//! Where a line ends in the bytes that a device sends.
use vstd::prelude::*;

verus! {

/// The carriage return that ends every line, in both directions.
pub const CR: u8 = 0x0d;

/// `n` is the index of the first carriage return in `bytes`.
pub open spec fn first_cr(bytes: Seq<u8>, n: int) -> bool {
    &&& 0 <= n < bytes.len()
    &&& bytes[n] == CR
    &&& forall|i: int| 0 <= i < n ==> bytes[i] != CR
}

/// The index of the first carriage return, if there is one.
pub open spec fn line_end(bytes: Seq<u8>) -> Option<int> {
    if bytes.contains(CR) {
        Some(choose|n: int| first_cr(bytes, n))
    } else {
        None
    }
}

/// [`line_end`] is the first carriage return wherever there is one.
pub proof fn line_end_is(bytes: Seq<u8>, n: int)
    requires
        first_cr(bytes, n),
    ensures
        line_end(bytes) == Some(n),
{
    let m = choose|m: int| first_cr(bytes, m);
    assert(first_cr(bytes, m));
    assert(bytes[m] == CR && bytes[n] == CR);
}

/// A line ends at `n` just where the first byte with the code 13 stands, and nowhere just where
/// there is no such byte.
pub proof fn line_ends_at_first_13(bytes: Seq<u8>, n: int)
    ensures
        line_end(bytes) == Some(n) <==> {
            &&& 0 <= n < bytes.len()
            &&& bytes[n] == 13
            &&& forall|i: int| 0 <= i < n ==> #[trigger] bytes[i] != 13
        },
        line_end(bytes) is None <==> forall|i: int|
            0 <= i < bytes.len() ==> #[trigger] bytes[i] != 13,
{
    if first_cr(bytes, n) {
        line_end_is(bytes, n);
    }
    if bytes.contains(CR) {
        let m = first_cr_from(bytes, 0);
        line_end_is(bytes, m);
        assert(bytes[m] == 13);
    } else {
        assert forall|i: int| 0 <= i < bytes.len() implies #[trigger] bytes[i] != 13 by {
            assert(!(bytes[i] == CR));
        }
    }
}

/// The first carriage return, where none stands before `from`.
proof fn first_cr_from(bytes: Seq<u8>, from: int) -> (n: int)
    requires
        0 <= from <= bytes.len(),
        forall|i: int| 0 <= i < from ==> bytes[i] != CR,
        bytes.contains(CR),
    ensures
        first_cr(bytes, n),
    decreases bytes.len() - from,
{
    if from == bytes.len() {
        let i = choose|i: int| 0 <= i < bytes.len() && bytes[i] == CR;
        assert(bytes[i] == CR);
        from
    } else if bytes[from] == CR {
        from
    } else {
        first_cr_from(bytes, from + 1)
    }
}

/// The first line that a carriage return ends is the text before it, whatever follows.
pub proof fn line_end_of_terminated(line: Seq<u8>, rest: Seq<u8>)
    requires
        !line.contains(CR),
    ensures
        line_end(line.push(CR) + rest) == Some(line.len() as int),
        (line.push(CR) + rest).take(line.len() as int) == line,
{
    let bytes = line.push(CR) + rest;
    assert forall|i: int| 0 <= i < line.len() implies bytes[i] != CR by {
        assert(bytes[i] == line[i]);
    }
    line_end_is(bytes, line.len() as int);
    assert(bytes.take(line.len() as int) =~= line);
}

/// Finds the first carriage return.
pub fn find_line_end(bytes: &[u8]) -> (end: Option<usize>)
    ensures
        match end {
            Some(n) => line_end(bytes@) == Some(n as int) && first_cr(bytes@, n as int),
            None => line_end(bytes@) is None && !bytes@.contains(CR),
        },
        match end {
            Some(n) => n < bytes@.len() && bytes@[n as int] == 0x0d && forall|i: int|
                0 <= i < n ==> #[trigger] bytes@[i] != 0x0d,
            None => forall|i: int| 0 <= i < bytes@.len() ==> #[trigger] bytes@[i] != 0x0d,
        },
{
    let mut i: usize = 0;
    while i < bytes.len()
        invariant
            i <= bytes@.len(),
            forall|k: int| 0 <= k < i ==> bytes@[k] != CR,
        decreases bytes@.len() - i,
    {
        if bytes[i] == CR {
            proof {
                line_end_is(bytes@, i as int);
            }
            return Some(i);
        }
        i = i + 1;
    }
    None
}

} // verus!
