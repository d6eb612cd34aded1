//! Text as the codecs see it: bytes that are UTF-8, without the white space around them.
use vstd::prelude::*;
use vstd::string::*;
use vstd::utf8::*;

verus! {

/// Why bytes are not UTF-8.
#[derive(Clone, Copy, Debug, PartialEq, Eq)]
pub struct Utf8Fault {
    /// How many bytes from the start are UTF-8.
    pub valid_up_to: usize,
    /// How many bytes there are in no character, or nothing where the bytes end too early.
    pub error_len: Option<usize>,
}

/// The first `n` bytes are UTF-8, and no longer stretch from the start is.
pub open spec fn longest_utf8(bytes: Seq<u8>, n: int) -> bool {
    &&& partial_valid_utf8(bytes, n)
    &&& forall|m: int| n < m <= bytes.len() ==> !partial_valid_utf8(bytes, m)
}

/// What `Utf8Error::error_len` gives for the error of `std::str::from_utf8` on these bytes.
pub uninterp spec fn utf8_error_len(bytes: Seq<u8>) -> Option<usize>;

/// The fault that is found in bytes that are not UTF-8.
pub open spec fn utf8_fault(bytes: Seq<u8>) -> Utf8Fault {
    Utf8Fault {
        valid_up_to: (choose|n: int| longest_utf8(bytes, n)) as usize,
        error_len: utf8_error_len(bytes),
    }
}

/// `std::str::from_utf8`: gives the bytes as text just where they are UTF-8. Otherwise its error
/// tells the longest stretch from the start that is UTF-8 (`Utf8Error::valid_up_to`), and
/// `Utf8Error::error_len`, which is a function of the bytes; what it is on given bytes is left
/// unsaid.
#[verifier::external_body]
fn from_utf8(bytes: &[u8]) -> (r: Result<&str, Utf8Fault>)
    ensures
        r is Ok <==> valid_utf8(bytes@),
        r matches Ok(text) ==> text.spec_bytes() == bytes@,
        r matches Err(fault) ==> longest_utf8(bytes@, fault.valid_up_to as int)
            && fault.error_len == utf8_error_len(bytes@),
{
    match std::str::from_utf8(bytes) {
        Ok(text) => Ok(text),
        Err(e) => Err(Utf8Fault { valid_up_to: e.valid_up_to(), error_len: e.error_len() }),
    }
}

/// The characters with the Unicode property `White_Space`.
pub open spec fn is_white_space(c: char) -> bool {
    ||| '\u{9}' <= c <= '\u{d}'
    ||| c == '\u{20}'
    ||| c == '\u{85}'
    ||| c == '\u{a0}'
    ||| c == '\u{1680}'
    ||| '\u{2000}' <= c <= '\u{200a}'
    ||| c == '\u{2028}'
    ||| c == '\u{2029}'
    ||| c == '\u{202f}'
    ||| c == '\u{205f}'
    ||| c == '\u{3000}'
}

/// A text without the white space at its start.
pub open spec fn trimmed_start(text: Seq<char>) -> Seq<char>
    decreases text.len(),
{
    if text.len() > 0 && is_white_space(text.first()) {
        trimmed_start(text.drop_first())
    } else {
        text
    }
}

/// A text without the white space at its end.
pub open spec fn trimmed_end(text: Seq<char>) -> Seq<char>
    decreases text.len(),
{
    if text.len() > 0 && is_white_space(text.last()) {
        trimmed_end(text.drop_last())
    } else {
        text
    }
}

/// A text without the white space around it.
pub open spec fn trimmed(text: Seq<char>) -> Seq<char> {
    trimmed_end(trimmed_start(text))
}

/// `str::trim`: removes the white space at both ends.
pub assume_specification[ str::trim ](text: &str) -> (inner: &str)
    ensures
        inner@ == trimmed(text@),
;

/// The bytes of a line that is UTF-8, without the white space around it.
pub open spec fn trimmed_bytes(line: Seq<u8>) -> Seq<u8> {
    encode_utf8(trimmed(decode_utf8(line)))
}

/// The text of a line, without the white space around it, where the line is UTF-8.
pub fn line_text(line: &[u8]) -> (r: Result<&str, Utf8Fault>)
    ensures
        match r {
            Ok(text) => valid_utf8(line@) && text.spec_bytes() == trimmed_bytes(line@),
            Err(fault) => !valid_utf8(line@) && fault == utf8_fault(line@),
        },
        r matches Ok(text) ==> text@ == trimmed(decode_utf8(line@)),
        r matches Err(fault) ==> partial_valid_utf8(line@, fault.valid_up_to as int) && (forall|
            m: int,
        |
            fault.valid_up_to < m <= line@.len() ==> !#[trigger] partial_valid_utf8(line@, m))
            && fault.error_len == utf8_error_len(line@),
{
    match from_utf8(line) {
        Ok(text) => {
            proof {
                encode_utf8_decode_utf8(text@);
            }
            Ok(text.trim())
        },
        Err(fault) => {
            proof {
                let n = choose|n: int| longest_utf8(line@, n);
                assert(longest_utf8(line@, fault.valid_up_to as int));
                assert(longest_utf8(line@, n));
                assert(n == fault.valid_up_to);
            }
            Err(fault)
        },
    }
}

/// A text between two characters that are not white space is not changed by trimming.
pub proof fn trimmed_is_same(text: Seq<char>)
    requires
        text.len() > 0,
        !is_white_space(text.first()),
        !is_white_space(text.last()),
    ensures
        trimmed(text) == text,
{
}

/// A line of ASCII bytes is UTF-8, and its characters are its bytes.
pub proof fn ascii_line(line: Seq<u8>)
    requires
        forall|i: int| 0 <= i < line.len() ==> #[trigger] line[i] < 0x80,
    ensures
        valid_utf8(line),
        decode_utf8(line) == Seq::new(line.len(), |i: int| line[i] as char),
        forall|i: int| 0 <= i <= line.len() ==> #[trigger] is_char_boundary(line, i),
{
    let chars = Seq::new(line.len(), |i: int| line[i] as char);
    assert(is_ascii_chars(chars));
    is_ascii_chars_encode_utf8(chars);
    assert(encode_utf8(chars) =~= line) by {
        assert forall|i: int| 0 <= i < line.len() implies encode_utf8(chars)[i] == line[i] by {
            assert(chars[i] as u8 == line[i]);
        }
    }
    encode_utf8_valid_utf8(chars);
    encode_utf8_decode_utf8(chars);
    assert forall|i: int| 0 <= i <= line.len() implies #[trigger] is_char_boundary(line, i) by {
        if i < line.len() {
            is_char_boundary_iff_not_is_continuation_byte(line, i);
            assert(!is_continuation_byte(line[i]));
        } else {
            is_char_boundary_start_end_of_seq(line);
        }
    }
}

/// Where the white space at the start of a text ends.
proof fn start_of(text: Seq<char>) -> (i: int)
    ensures
        0 <= i <= text.len(),
        trimmed_start(text) == text.skip(i),
        forall|k: int| 0 <= k < i ==> is_white_space(#[trigger] text[k]),
        i < text.len() ==> !is_white_space(text[i]),
    decreases text.len(),
{
    if text.len() > 0 && is_white_space(text.first()) {
        let rest = text.drop_first();
        let i = start_of(rest);
        assert(rest.skip(i) =~= text.skip(i + 1));
        assert forall|k: int| 0 <= k < i + 1 implies is_white_space(#[trigger] text[k]) by {
            if k > 0 {
                assert(rest[k - 1] == text[k]);
            }
        }
        i + 1
    } else {
        assert(text.skip(0) =~= text);
        0
    }
}

/// Where the white space at the end of a text begins.
proof fn end_of(text: Seq<char>) -> (j: int)
    ensures
        0 <= j <= text.len(),
        trimmed_end(text) == text.take(j),
        forall|k: int| j <= k < text.len() ==> is_white_space(#[trigger] text[k]),
        j > 0 ==> !is_white_space(text[j - 1]),
    decreases text.len(),
{
    if text.len() > 0 && is_white_space(text.last()) {
        let rest = text.drop_last();
        let j = end_of(rest);
        assert(rest.take(j) =~= text.take(j));
        assert forall|k: int| j <= k < text.len() implies is_white_space(#[trigger] text[k]) by {
            if k < rest.len() {
                assert(rest[k] == text[k]);
            }
        }
        j
    } else {
        assert(text.take(text.len() as int) =~= text);
        text.len() as int
    }
}

/// Trimming leaves one stretch of a text, the one from `i` to `j` that comes back: around it stands
/// nothing but white space, and it neither starts nor ends with any.
pub proof fn trimming_leaves_the_inner_stretch(text: Seq<char>) -> (ends: (int, int))
    ensures
        0 <= ends.0 <= ends.1 <= text.len(),
        trimmed(text) == text.subrange(ends.0, ends.1),
        forall|k: int|
            0 <= k < ends.0 || ends.1 <= k < text.len() ==> is_white_space(#[trigger] text[k]),
        ends.0 < ends.1 ==> !is_white_space(text[ends.0]) && !is_white_space(text[ends.1 - 1]),
{
    let i = start_of(text);
    let rest = text.skip(i);
    let j = end_of(rest);
    assert(rest.take(j) =~= text.subrange(i, i + j));
    assert forall|k: int| 0 <= k < i || i + j <= k < text.len() implies is_white_space(
        #[trigger] text[k],
    ) by {
        if k >= i + j {
            assert(rest[k - i] == text[k]);
        }
    }
    if j > 0 {
        assert(rest[j - 1] == text[i + j - 1]);
    }
    (i, i + j)
}

/// White space is these twenty-five characters.
pub proof fn white_space_is(c: char)
    ensures
        is_white_space(c) <==> {
            let code = c as u32;
            ||| code == 0x9 || code == 0xa || code == 0xb || code == 0xc || code == 0xd
            ||| code == 0x20 || code == 0x85 || code == 0xa0 || code == 0x1680
            ||| code == 0x2000 || code == 0x2001 || code == 0x2002 || code == 0x2003
            ||| code == 0x2004 || code == 0x2005 || code == 0x2006 || code == 0x2007
            ||| code == 0x2008 || code == 0x2009 || code == 0x200a
            ||| code == 0x2028 || code == 0x2029 || code == 0x202f || code == 0x205f
            ||| code == 0x3000
        },
{
}

/// The bytes that trimming leaves of a line are UTF-8 for the trimmed characters of the line.
pub proof fn trimmed_bytes_are_the_trimmed_text(line: Seq<u8>)
    requires
        valid_utf8(line),
    ensures
        valid_utf8(trimmed_bytes(line)),
        decode_utf8(trimmed_bytes(line)) == trimmed(decode_utf8(line)),
{
    encode_utf8_valid_utf8(trimmed(decode_utf8(line)));
    encode_utf8_decode_utf8(trimmed(decode_utf8(line)));
}

/// The longest stretch from the start that is UTF-8, of `upto` bytes at most.
proof fn longest_of(bytes: Seq<u8>, upto: int) -> (n: int)
    requires
        0 <= upto <= bytes.len(),
        forall|m: int| upto < m <= bytes.len() ==> !partial_valid_utf8(bytes, m),
    ensures
        longest_utf8(bytes, n),
    decreases upto,
{
    if partial_valid_utf8(bytes, upto) {
        upto
    } else {
        assert(upto > 0) by {
            assert(bytes.subrange(0, 0) =~= Seq::<u8>::empty());
        }
        longest_of(bytes, upto - 1)
    }
}

/// The fault in bytes that are not UTF-8 tells how many bytes from the start are, and no more.
pub proof fn fault_tells_the_longest_text(bytes: Seq<u8>)
    requires
        bytes.len() <= usize::MAX,
    ensures
        partial_valid_utf8(bytes, utf8_fault(bytes).valid_up_to as int),
        forall|m: int|
            utf8_fault(bytes).valid_up_to < m <= bytes.len() ==> !#[trigger] partial_valid_utf8(
                bytes,
                m,
            ),
        utf8_fault(bytes).error_len == utf8_error_len(bytes),
{
    let n = longest_of(bytes, bytes.len() as int);
    let m = choose|m: int| longest_utf8(bytes, m);
    assert(longest_utf8(bytes, m));
}

} // verus!
