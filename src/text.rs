use vstd::prelude::*;
use vstd::std_specs::iter::IteratorSpec;
use vstd::utf8::*;
use vstd::string::{StringExecFns, StringSliceAdditionalSpecFns};

verus! {

/// The characters of `s`, in order.
pub fn chars_of(s: &str) -> (r: Vec<char>)
    ensures
        r@ == s@,
{
    broadcast use vstd::string::group_string_axioms;

    let mut r: Vec<char> = Vec::new();
    let mut it = s.chars();
    loop
        invariant
            r@ + it.remaining() == s@,
        decreases s@.len() - r@.len(),
    {
        match it.next() {
            Some(c) => {
                r.push(c);
            },
            None => {
                assert(r@ + seq![] == r@);
                return r;
            },
        }
    }
}


/// Number of bytes in the UTF-8 encoding of `s`.
pub open spec fn byte_len(s: Seq<char>) -> int {
    encode_utf8(s).len() as int
}

/// Byte index, in the UTF-8 encoding of `s`, of the character at position `p`.
pub open spec fn byte_offset(s: Seq<char>, p: int) -> int {
    encode_utf8(s.take(p)).len() as int
}

/// Line number (from 1) of position `p`: one more than the line breaks before it.
pub open spec fn line_of(s: Seq<char>, p: int) -> int
    decreases p,
{
    if p <= 0 {
        1
    } else {
        line_of(s, p - 1) + if s[p - 1] == '\n' { 1int } else { 0int }
    }
}

/// Column number (from 1) of position `p`: one more than the characters between the
/// last line break before `p` and `p`.
pub open spec fn column_of(s: Seq<char>, p: int) -> int
    decreases p,
{
    if p <= 0 {
        1
    } else if s[p - 1] == '\n' {
        1
    } else {
        column_of(s, p - 1) + 1
    }
}

/// The character at `q` ends a line: a `\n`, or the `\r` of a `\r\n`.
pub open spec fn is_line_ending(s: Seq<char>, q: int) -> bool {
    s[q] == '\n' || (s[q] == '\r' && q + 1 < s.len() && s[q + 1] == '\n')
}

/// `line` and `column` address a character of `s` that is not part of a line ending: the
/// line exists, and the column is at most that line's number of characters. Lines are
/// split at `\n`, and a line's characters are those before its `\n` or `\r\n`.
pub open spec fn names_character(s: Seq<char>, line: int, column: int) -> bool {
    exists|q: int|
        0 <= q < s.len() && !is_line_ending(s, q) && #[trigger] line_of(s, q) == line
            && column_of(s, q) == column
}

/// The UTF-8 encoding of a concatenation is the concatenation of the encodings.
pub proof fn lemma_encode_utf8_concat(a: Seq<char>, b: Seq<char>)
    ensures
        encode_utf8(a + b) == encode_utf8(a) + encode_utf8(b),
    decreases a.len(),
{
    if a.len() == 0 {
        assert(a + b =~= b);
        assert(encode_utf8(a) + encode_utf8(b) =~= encode_utf8(b));
    } else {
        lemma_encode_utf8_concat(a.drop_first(), b);
        assert((a + b).drop_first() =~= a.drop_first() + b);
        assert(encode_utf8(a + b) =~= encode_utf8(a) + encode_utf8(b));
    }
}

/// The encoding of a single character.
pub proof fn lemma_encode_utf8_single(c: char)
    ensures
        encode_utf8(seq![c]) == encode_scalar(c as u32),
        1 <= encode_scalar(c as u32).len() <= 4,
{
    let one = seq![c];
    assert(one.drop_first() =~= Seq::<char>::empty());
    assert(one[0] == c);
    assert(encode_utf8(one.drop_first()) =~= Seq::<u8>::empty());
    assert(encode_utf8(one) == encode_scalar(one[0] as u32) + encode_utf8(one.drop_first()));
    assert(encode_utf8(one) =~= encode_scalar(c as u32));
}

/// Moving over one character moves the byte index by the width of its encoding.
pub proof fn lemma_byte_offset_step(s: Seq<char>, p: int)
    requires
        0 <= p < s.len(),
    ensures
        byte_offset(s, p + 1) == byte_offset(s, p) + encode_scalar(s[p] as u32).len(),
{
    assert(s.take(p + 1) =~= s.take(p) + seq![s[p]]);
    lemma_encode_utf8_concat(s.take(p), seq![s[p]]);
    lemma_encode_utf8_single(s[p]);
}

/// The bytes from offset `b` to offset `e` encode the characters from `b` to `e`.
pub proof fn lemma_byte_span(s: Seq<char>, b: int, e: int)
    requires
        0 <= b <= e <= s.len(),
    ensures
        0 <= byte_offset(s, b) <= byte_offset(s, e) <= byte_len(s),
        encode_utf8(s).subrange(byte_offset(s, b), byte_offset(s, e)) == encode_utf8(
            s.subrange(b, e),
        ),
        b < e ==> byte_offset(s, b) < byte_offset(s, e),
{
    let x = s.take(b);
    let y = s.subrange(b, e);
    let z = s.subrange(e, s.len() as int);
    assert(s.take(e) =~= x + y);
    assert(s =~= (x + y) + z);
    lemma_encode_utf8_concat(x, y);
    lemma_encode_utf8_concat(x + y, z);
    if b < e {
        assert(y =~= seq![y[0]] + y.drop_first());
        lemma_encode_utf8_concat(seq![y[0]], y.drop_first());
        lemma_encode_utf8_single(y[0]);
    }
    assert(encode_utf8(s).subrange(byte_offset(s, b), byte_offset(s, e)) =~= encode_utf8(y));
}

/// The byte index of every position is a character boundary of the encoding.
pub proof fn lemma_byte_offset_is_char_boundary(s: Seq<char>, p: int)
    requires
        0 <= p <= s.len(),
    ensures
        is_char_boundary(encode_utf8(s), byte_offset(s, p)),
    decreases s.len(),
{
    broadcast use encode_utf8_valid_utf8;

    if p == 0 {
        assert(s.take(0) =~= Seq::<char>::empty());
    } else {
        let bytes = encode_utf8(s);
        encode_utf8_first_scalar(s);
        assert(pop_first_scalar(bytes) =~= encode_utf8(s.drop_first()));
        lemma_byte_offset_is_char_boundary(s.drop_first(), p - 1);
        assert(s.take(p).drop_first() =~= s.drop_first().take(p - 1));
        lemma_byte_span(s, 0, p);
        assert(byte_offset(s, p) == encode_scalar(s[0] as u32).len() + byte_offset(
            s.drop_first(),
            p - 1,
        ));
    }
}

/// Every character boundary of an encoding is the byte index of some position.
pub proof fn lemma_char_boundary_is_offset(s: Seq<char>, i: int)
    requires
        is_char_boundary(encode_utf8(s), i),
    ensures
        exists|p: int| 0 <= p <= s.len() && #[trigger] byte_offset(s, p) == i,
    decreases s.len(),
{
    broadcast use encode_utf8_valid_utf8;

    if i == 0 {
        assert(s.take(0) =~= Seq::<char>::empty());
        assert(byte_offset(s, 0) == 0);
    } else {
        let bytes = encode_utf8(s);
        if s.len() == 0 {
            assert(bytes =~= Seq::<u8>::empty());
        } else {
            encode_utf8_first_scalar(s);
            assert(pop_first_scalar(bytes) =~= encode_utf8(s.drop_first()));
            let w = encode_scalar(s[0] as u32).len() as int;
            lemma_char_boundary_is_offset(s.drop_first(), i - w);
            let q = choose|q: int|
                0 <= q <= s.drop_first().len() && #[trigger] byte_offset(s.drop_first(), q) == i - w;
            assert(s.take(q + 1).drop_first() =~= s.drop_first().take(q));
            lemma_byte_span(s, 0, q + 1);
            assert(byte_offset(s, q + 1) == w + byte_offset(s.drop_first(), q));
        }
    }
}

/// Byte offsets grow strictly with the position.
pub proof fn lemma_byte_offset_strictly_grows(s: Seq<char>, p: int, q: int)
    requires
        0 <= p <= s.len(),
        0 <= q <= s.len(),
    ensures
        p < q ==> byte_offset(s, p) < byte_offset(s, q),
        p == q <==> byte_offset(s, p) == byte_offset(s, q),
{
    if p < q {
        lemma_byte_span(s, p, q);
    } else if q < p {
        lemma_byte_span(s, q, p);
    }
}

/// Number of bytes in the UTF-8 encoding of `c`.
pub fn utf8_width(c: char) -> (w: usize)
    ensures
        w == encode_scalar(c as u32).len(),
{
    let v = c as u32;
    if v <= 0x7F {
        1
    } else if v <= 0x7FF {
        2
    } else if v <= 0xFFFF {
        proof {
            char_is_scalar(c);
        }
        3
    } else {
        proof {
            char_is_scalar(c);
        }
        4
    }
}


/// The decimal digit for `d < 10`.
pub open spec fn digit_char(d: nat) -> char {
    if d == 0 {
        '0'
    } else if d == 1 {
        '1'
    } else if d == 2 {
        '2'
    } else if d == 3 {
        '3'
    } else if d == 4 {
        '4'
    } else if d == 5 {
        '5'
    } else if d == 6 {
        '6'
    } else if d == 7 {
        '7'
    } else if d == 8 {
        '8'
    } else {
        '9'
    }
}

/// The decimal digits of `n`, without leading zeros.
pub open spec fn decimal(n: nat) -> Seq<char>
    decreases n,
{
    if n < 10 {
        seq![digit_char(n)]
    } else {
        decimal(n / 10).push(digit_char(n % 10))
    }
}

/// Relies on the `Display` of `u64` (through `ToString`): its decimal digits.
#[verifier::external_body]
pub(crate) fn decimal_text(n: u64) -> (r: String)
    ensures
        r@ == decimal(n as nat),
{
    n.to_string()
}


/// Relies on the `Display` of `char` (through `ToString`): the character itself.
#[verifier::external_body]
pub(crate) fn char_text(c: char) -> (r: String)
    ensures
        r@ == seq![c],
{
    c.to_string()
}

/// Line and column never exceed one more than the position.
pub proof fn lemma_line_column_bounds(s: Seq<char>, p: int)
    requires
        0 <= p <= s.len(),
    ensures
        1 <= line_of(s, p) <= p + 1,
        1 <= column_of(s, p) <= p + 1,
    decreases p,
{
    if p > 0 {
        lemma_line_column_bounds(s, p - 1);
    }
}

/// Across characters that are not line breaks the line stays and the column counts up.
pub proof fn lemma_same_line(s: Seq<char>, b: int, e: int)
    requires
        0 <= b <= e <= s.len(),
        forall|k: int| b <= k < e ==> s[k] != '\n',
    ensures
        line_of(s, e) == line_of(s, b),
        column_of(s, e) == column_of(s, b) + (e - b),
    decreases e - b,
{
    if e > b {
        lemma_same_line(s, b, e - 1);
    }
}

/// Byte offsets within a suffix are byte offsets of the whole, less the suffix's start.
pub proof fn lemma_byte_offset_in_suffix(s: Seq<char>, b: int, q: int)
    requires
        0 <= b <= q <= s.len(),
    ensures
        byte_offset(s.subrange(b, s.len() as int), q - b) == byte_offset(s, q) - byte_offset(s, b),
        encode_utf8(s).subrange(byte_offset(s, b), byte_len(s)) == encode_utf8(
            s.subrange(b, s.len() as int),
        ),
{
    lemma_byte_span(s, b, q);
    lemma_byte_span(s, b, s.len() as int);
    assert(s.take(s.len() as int) =~= s);
    assert(s.subrange(b, s.len() as int).take(q - b) =~= s.subrange(b, q));
}


/// One more nesting level; it stays at the largest `usize`.
pub open spec fn next_depth(depth: nat) -> nat {
    if depth < usize::MAX {
        depth + 1
    } else {
        depth
    }
}

/// Two spaces for each nesting level.
pub open spec fn indent(depth: nat) -> Seq<char>
    decreases depth,
{
    if depth == 0 {
        seq![]
    } else {
        indent((depth - 1) as nat) + seq![' ', ' ']
    }
}

/// Two spaces for each nesting level.
pub fn indentation(depth: usize) -> (r: String)
    ensures
        r@ == indent(depth as nat),
{
    proof {
        reveal_strlit("  ");
        assert("  "@ =~= seq![' ', ' ']);
    }
    let mut r = String::new();
    let mut i: usize = 0;
    while i < depth
        invariant
            0 <= i <= depth,
            r@ == indent(i as nat),
        decreases depth - i,
    {
        proof {
            reveal_strlit("  ");
            assert("  "@ =~= seq![' ', ' ']);
        }
        r.append("  ");
        assert(indent((i + 1) as nat) == indent(i as nat) + seq![' ', ' ']);
        i = i + 1;
    }
    r
}

/// `line:column`.
pub open spec fn line_column(line: u32, column: u32) -> Seq<char> {
    decimal(line as nat) + seq![':'] + decimal(column as nat)
}

/// `line:column`.
pub fn line_column_text(line: u32, column: u32) -> (r: String)
    ensures
        r@ == line_column(line, column),
{
    proof {
        reveal_strlit(":");
        assert(":"@ =~= seq![':']);
    }
    let mut r = decimal_text(line as u64);
    r.append(":");
    let c = decimal_text(column as u64);
    r.append(c.as_str());
    r
}

} // verus!
