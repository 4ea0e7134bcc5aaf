//! yEnc: the byte-level encoding of binary article bodies.
//!
//! An encoded byte stands for the source byte plus 42 (mod 256). The byte `=`
//! escapes the one after it, which stands for the source byte plus 42 plus 64.
//! Carriage returns carry no data. A body is a run of lines; `=ybegin` opens
//! the data, `=yend` closes it, `=ypart` is skipped.

use vstd::prelude::*;

verus! {

/// The escape byte, `=`.
pub const ESCAPE: u8 = 0x3D;

/// Carriage return.
pub const CR: u8 = 0x0D;

/// Line feed, the line separator of a body.
pub const LF: u8 = 0x0A;

/// The source byte that the plain encoded byte `b` stands for: `b - 42` mod 256.
pub open spec fn unshift(b: u8) -> u8 {
    if b >= 42 {
        (b - 42) as u8
    } else {
        (b + 214) as u8
    }
}

/// The source byte that `b` stands for when it follows an escape:
/// `b - 64 - 42` mod 256.
pub open spec fn unescape(b: u8) -> u8 {
    if b >= 106 {
        (b - 106) as u8
    } else {
        (b + 150) as u8
    }
}

/// The encoded form of the source byte `b` before any escaping: `b + 42` mod 256.
pub open spec fn shift(b: u8) -> u8 {
    if b < 214 {
        (b + 42) as u8
    } else {
        (b - 214) as u8
    }
}

/// What a line of encoded data decodes to, or `None` where the line ends in
/// an escape byte with nothing after it.
pub open spec fn decode_line(line: Seq<u8>) -> Option<Seq<u8>>
    decreases line.len(),
{
    if line.len() == 0 {
        Some(Seq::empty())
    } else if line[0] == ESCAPE {
        if line.len() == 1 {
            None
        } else {
            match decode_line(line.skip(2)) {
                Some(rest) => Some(seq![unescape(line[1])] + rest),
                None => None,
            }
        }
    } else if line[0] == CR {
        decode_line(line.skip(1))
    } else {
        match decode_line(line.skip(1)) {
            Some(rest) => Some(seq![unshift(line[0])] + rest),
            None => None,
        }
    }
}

/// `done` followed by what the rest decodes to; nothing if the rest fails.
pub open spec fn then_rest(done: Seq<u8>, rest: Option<Seq<u8>>) -> Option<Seq<u8>> {
    match rest {
        Some(r) => Some(done + r),
        None => None,
    }
}

/// Decodes one plain byte.
pub fn unshift_byte(b: u8) -> (r: u8)
    ensures
        r == unshift(b),
{
    b.wrapping_sub(42)
}

/// Decodes one byte that follows an escape.
pub fn unescape_byte(b: u8) -> (r: u8)
    ensures
        r == unescape(b),
{
    b.wrapping_sub(64).wrapping_sub(42)
}

/// Decodes `data[start..end]` by the escape rule, byte by byte, and appends the
/// result to `out`. Returns `false` where the line ends inside an escape.
pub fn decode_line_scalar(data: &[u8], start: usize, end: usize, out: &mut Vec<u8>) -> (ok: bool)
    requires
        start <= end <= data.len(),
    ensures
        ok == decode_line(data@.subrange(start as int, end as int)).is_some(),
        ok ==> final(out)@ == old(out)@ + decode_line(
            data@.subrange(start as int, end as int),
        ).unwrap(),
        old(out)@.is_prefix_of(final(out)@),
{
    let ghost line = data@.subrange(start as int, end as int);
    let ghost mut acc: Seq<u8> = Seq::empty();
    let mut i: usize = start;
    proof {
        assert(line.skip(0) =~= line);
        assert(out@ + acc =~= out@);
        if decode_line(line).is_some() {
            assert(acc + decode_line(line).unwrap() =~= decode_line(line).unwrap());
        }
    }
    while i < end
        invariant
            start <= i <= end <= data.len(),
            line == data@.subrange(start as int, end as int),
            out@ == old(out)@ + acc,
            decode_line(line) == then_rest(acc, decode_line(line.skip(i - start))),
        decreases end - i,
    {
        let ghost tail = line.skip(i - start);
        assert(tail.len() == end - i);
        assert(tail[0] == data@[i as int]);
        let b: u8 = data[i];
        if b == ESCAPE {
            if i + 1 >= end {
                assert(tail.len() == 1);
                return false;
            }
            let next: u8 = data[i + 1];
            assert(tail[1] == next);
            assert(tail.skip(2) =~= line.skip(i + 2 - start));
            out.push(unescape_byte(next));
            proof {
                let rest = decode_line(line.skip(i + 2 - start));
                if rest.is_some() {
                    assert((acc + seq![unescape(next)]) + rest.unwrap() =~= acc + (seq![
                        unescape(next),
                    ] + rest.unwrap()));
                }
                acc = acc + seq![unescape(next)];
            }
            i = i + 2;
        } else if b == CR {
            assert(tail.skip(1) =~= line.skip(i + 1 - start));
            i = i + 1;
        } else {
            assert(tail.skip(1) =~= line.skip(i + 1 - start));
            out.push(unshift_byte(b));
            proof {
                let rest = decode_line(line.skip(i + 1 - start));
                if rest.is_some() {
                    assert((acc + seq![unshift(b)]) + rest.unwrap() =~= acc + (seq![unshift(b)]
                        + rest.unwrap()));
                }
                acc = acc + seq![unshift(b)];
            }
            i = i + 1;
        }
    }
    assert(line.skip(end - start).len() == 0);
    assert(acc + Seq::<u8>::empty() =~= acc);
    true
}

/// A line is plain where it holds neither an escape byte nor a carriage return.
pub open spec fn line_is_plain(line: Seq<u8>) -> bool {
    forall|i: int| 0 <= i < line.len() ==> line[i] != ESCAPE && line[i] != CR
}

/// A plain line decoded: every byte minus 42, position by position.
pub open spec fn decode_plain(line: Seq<u8>) -> Seq<u8> {
    Seq::new(line.len(), |i: int| unshift(line[i]))
}

/// What the block path makes of a line: the byte-wise subtraction where the
/// line is plain, the escape rule where it is not.
pub open spec fn decode_line_fast(line: Seq<u8>) -> Option<Seq<u8>> {
    if line_is_plain(line) {
        Some(decode_plain(line))
    } else {
        decode_line(line)
    }
}

/// On a plain line the escape rule and the byte-wise subtraction give the same
/// bytes.
pub proof fn lemma_plain_line(line: Seq<u8>)
    requires
        line_is_plain(line),
    ensures
        decode_line(line) == Some(decode_plain(line)),
    decreases line.len(),
{
    if line.len() == 0 {
        assert(decode_plain(line) =~= Seq::<u8>::empty());
    } else {
        let tail = line.skip(1);
        assert forall|i: int| 0 <= i < tail.len() implies tail[i] != ESCAPE && tail[i] != CR by {
            assert(tail[i] == line[i + 1]);
        }
        lemma_plain_line(tail);
        assert(seq![unshift(line[0])] + decode_plain(tail) =~= decode_plain(line));
    }
}

/// The two paths agree on every line, plain or not.
pub proof fn lemma_line_paths_agree(line: Seq<u8>)
    ensures
        decode_line_fast(line) == decode_line(line),
{
    if line_is_plain(line) {
        lemma_plain_line(line);
    }
}

/// Whether `data[start..end]` holds neither an escape byte nor a carriage
/// return.
pub fn is_plain(data: &[u8], start: usize, end: usize) -> (plain: bool)
    requires
        start <= end <= data.len(),
    ensures
        plain == line_is_plain(data@.subrange(start as int, end as int)),
{
    let ghost line = data@.subrange(start as int, end as int);
    let mut i: usize = start;
    while i < end
        invariant
            start <= i <= end <= data.len(),
            line == data@.subrange(start as int, end as int),
            forall|k: int| 0 <= k < i - start ==> line[k] != ESCAPE && line[k] != CR,
        decreases end - i,
    {
        let b: u8 = data[i];
        if b == ESCAPE || b == CR {
            assert(line[i - start] == b);
            return false;
        }
        assert(line[i - start] == b);
        i = i + 1;
    }
    true
}

/// Decodes the plain line `data[start..end]` sixteen bytes at a time, the
/// remainder byte by byte, and appends the result to `out`.
pub fn decode_plain_blocks(data: &[u8], start: usize, end: usize, out: &mut Vec<u8>)
    requires
        start <= end <= data.len(),
    ensures
        final(out)@ == old(out)@ + decode_plain(data@.subrange(start as int, end as int)),
{
    let mut i: usize = start;
    assert(old(out)@ + decode_plain(data@.subrange(start as int, start as int)) =~= old(out)@);
    while end - i >= 16
        invariant
            start <= i <= end <= data.len(),
            out@ == old(out)@ + decode_plain(data@.subrange(start as int, i as int)),
        decreases end - i,
    {
        let mut j: usize = 0;
        while j < 16
            invariant
                start <= i,
                i + 16 <= end <= data.len(),
                j <= 16,
                out@ == old(out)@ + decode_plain(data@.subrange(start as int, i + j)),
            decreases 16 - j,
        {
            let b: u8 = data[i + j];
            out.push(unshift_byte(b));
            assert(decode_plain(data@.subrange(start as int, i + j)) + seq![unshift(b)]
                =~= decode_plain(data@.subrange(start as int, i + j + 1)));
            j = j + 1;
        }
        i = i + 16;
    }
    while i < end
        invariant
            start <= i <= end <= data.len(),
            out@ == old(out)@ + decode_plain(data@.subrange(start as int, i as int)),
        decreases end - i,
    {
        let b: u8 = data[i];
        out.push(unshift_byte(b));
        assert(decode_plain(data@.subrange(start as int, i as int)) + seq![unshift(b)]
            =~= decode_plain(data@.subrange(start as int, i + 1)));
        i = i + 1;
    }
}

/// Decodes `data[start..end]` by the block path where the line is plain and
/// by the escape rule where it is not, and appends the result to `out`.
/// Returns `false` where the line ends inside an escape.
pub fn decode_line_blocks(data: &[u8], start: usize, end: usize, out: &mut Vec<u8>) -> (ok: bool)
    requires
        start <= end <= data.len(),
    ensures
        ok == decode_line_fast(data@.subrange(start as int, end as int)).is_some(),
        ok ==> final(out)@ == old(out)@ + decode_line_fast(
            data@.subrange(start as int, end as int),
        ).unwrap(),
        old(out)@.is_prefix_of(final(out)@),
{
    if is_plain(data, start, end) {
        decode_plain_blocks(data, start, end, out);
        true
    } else {
        decode_line_scalar(data, start, end, out)
    }
}

/// The bytes `=ybegin`.
pub open spec fn begin_marker() -> Seq<u8> {
    seq![0x3Du8, 0x79u8, 0x62u8, 0x65u8, 0x67u8, 0x69u8, 0x6Eu8]
}

/// The bytes `=yend`.
pub open spec fn end_marker() -> Seq<u8> {
    seq![0x3Du8, 0x79u8, 0x65u8, 0x6Eu8, 0x64u8]
}

/// The bytes `=ypart`.
pub open spec fn part_marker() -> Seq<u8> {
    seq![0x3Du8, 0x79u8, 0x70u8, 0x61u8, 0x72u8, 0x74u8]
}

/// Whether `line` begins with the bytes of `prefix`.
pub open spec fn has_prefix(line: Seq<u8>, prefix: Seq<u8>) -> bool {
    prefix.len() <= line.len() && forall|i: int| 0 <= i < prefix.len() ==> line[i] == prefix[i]
}

/// What a line of a body is.
#[derive(Clone, Copy, Debug)]
pub enum LineKind {
    /// It begins with `=ybegin`: the data starts after it.
    Begin,
    /// It begins with `=yend`: the data is over.
    End,
    /// It begins with `=ypart`: skipped.
    Part,
    /// It is empty, or a lone carriage return: skipped.
    Blank,
    /// Anything else: encoded data.
    Data,
}

/// The kind of a line, by its first bytes.
pub open spec fn classify(line: Seq<u8>) -> LineKind {
    if has_prefix(line, begin_marker()) {
        LineKind::Begin
    } else if has_prefix(line, end_marker()) {
        LineKind::End
    } else if has_prefix(line, part_marker()) {
        LineKind::Part
    } else if line.len() == 0 || (line.len() == 1 && line[0] == CR) {
        LineKind::Blank
    } else {
        LineKind::Data
    }
}

/// The length of the first line of `data`: the number of bytes before the
/// first line feed, or all of them where there is none.
pub open spec fn line_len(data: Seq<u8>) -> nat
    decreases data.len(),
{
    if data.len() == 0 || data[0] == LF {
        0
    } else {
        1 + line_len(data.skip(1))
    }
}

/// One line by the chosen path: the block path where `fast`, the escape rule
/// where not.
pub open spec fn decode_line_by(line: Seq<u8>, fast: bool) -> Option<Seq<u8>> {
    if fast {
        decode_line_fast(line)
    } else {
        decode_line(line)
    }
}

/// What a body decodes to from a given state, line by line.
///
/// `in_data` says whether a `=ybegin` line has been seen. A `=yend` line ends
/// the decoding, and so does the end of the input. A line of data fails the
/// whole body where no `=ybegin` came before it, or where it ends in an escape
/// byte.
pub open spec fn decode_with(data: Seq<u8>, in_data: bool, fast: bool) -> Option<Seq<u8>>
    decreases data.len(),
{
    let n = line_len(data) as int;
    let line = data.take(n);
    let more = n < data.len();
    match classify(line) {
        LineKind::End => Some(Seq::empty()),
        LineKind::Begin => if more {
            decode_with(data.skip(n + 1), true, fast)
        } else {
            Some(Seq::empty())
        },
        LineKind::Part | LineKind::Blank => if more {
            decode_with(data.skip(n + 1), in_data, fast)
        } else {
            Some(Seq::empty())
        },
        LineKind::Data => if !in_data {
            None
        } else {
            match decode_line_by(line, fast) {
                None => None,
                Some(d) => if more {
                    then_rest(d, decode_with(data.skip(n + 1), true, fast))
                } else {
                    Some(d)
                },
            }
        },
    }
}

/// What an article body decodes to: `None` on a soft failure.
pub open spec fn decode(data: Seq<u8>) -> Option<Seq<u8>> {
    decode_with(data, false, false)
}

/// The block path and the escape rule decode every body alike, from every
/// state: bodies with escapes and carriage returns included.
pub proof fn lemma_paths_agree(data: Seq<u8>, in_data: bool)
    ensures
        decode_with(data, in_data, true) == decode_with(data, in_data, false),
    decreases data.len(),
{
    let n = line_len(data) as int;
    let line = data.take(n);
    lemma_line_paths_agree(line);
    if n < data.len() {
        lemma_paths_agree(data.skip(n + 1), true);
        lemma_paths_agree(data.skip(n + 1), in_data);
    }
}

/// Where the line that starts at `pos` ends: the index of the next line feed,
/// or the length of `data`.
pub fn find_line_end(data: &[u8], pos: usize) -> (end: usize)
    requires
        pos <= data.len(),
    ensures
        pos <= end <= data.len(),
        end - pos == line_len(data@.skip(pos as int)),
{
    let mut i: usize = pos;
    assert(data@.skip(pos as int).skip(0) =~= data@.skip(pos as int));
    while i < data.len()
        invariant
            pos <= i <= data.len(),
            line_len(data@.skip(pos as int)) == (i - pos) + line_len(data@.skip(i as int)),
        decreases data.len() - i,
    {
        assert(data@.skip(i as int)[0] == data@[i as int]);
        if data[i] == LF {
            return i;
        }
        assert(data@.skip(i as int).skip(1) =~= data@.skip(i + 1));
        i = i + 1;
    }
    i
}

/// The kind of the line `data[start..end]`.
pub fn classify_line(data: &[u8], start: usize, end: usize) -> (kind: LineKind)
    requires
        start <= end <= data.len(),
    ensures
        kind == classify(data@.subrange(start as int, end as int)),
{
    let ghost line = data@.subrange(start as int, end as int);
    let n: usize = end - start;
    if n >= 2 && data[start] == ESCAPE && data[start + 1] == 0x79 {
        assert(line[0] == ESCAPE && line[1] == 0x79u8);
        if n >= 7 && data[start + 2] == 0x62 && data[start + 3] == 0x65 && data[start + 4] == 0x67
            && data[start + 5] == 0x69 && data[start + 6] == 0x6E {
            assert(line[2] == 0x62u8 && line[3] == 0x65u8 && line[4] == 0x67u8 && line[5] == 0x69u8
                && line[6] == 0x6Eu8);
            return LineKind::Begin;
        }
        assert(!has_prefix(line, begin_marker())) by {
            if has_prefix(line, begin_marker()) {
                assert(line[2] == begin_marker()[2] && line[3] == begin_marker()[3] && line[4]
                    == begin_marker()[4] && line[5] == begin_marker()[5] && line[6]
                    == begin_marker()[6]);
            }
        }
        if n >= 5 && data[start + 2] == 0x65 && data[start + 3] == 0x6E && data[start + 4] == 0x64 {
            assert(line[2] == 0x65u8 && line[3] == 0x6Eu8 && line[4] == 0x64u8);
            return LineKind::End;
        }
        assert(!has_prefix(line, end_marker())) by {
            if has_prefix(line, end_marker()) {
                assert(line[2] == end_marker()[2] && line[3] == end_marker()[3] && line[4]
                    == end_marker()[4]);
            }
        }
        if n >= 6 && data[start + 2] == 0x70 && data[start + 3] == 0x61 && data[start + 4] == 0x72
            && data[start + 5] == 0x74 {
            assert(line[2] == 0x70u8 && line[3] == 0x61u8 && line[4] == 0x72u8 && line[5] == 0x74u8);
            return LineKind::Part;
        }
        assert(!has_prefix(line, part_marker())) by {
            if has_prefix(line, part_marker()) {
                assert(line[2] == part_marker()[2] && line[3] == part_marker()[3] && line[4]
                    == part_marker()[4] && line[5] == part_marker()[5]);
            }
        }
        LineKind::Data
    } else {
        assert(!has_prefix(line, begin_marker()) && !has_prefix(line, end_marker()) && !has_prefix(
            line,
            part_marker(),
        )) by {
            if n >= 2 {
                assert(line[0] == data@[start as int] && line[1] == data@[start + 1]);
                assert(begin_marker()[0] == ESCAPE && begin_marker()[1] == 0x79u8);
                assert(end_marker()[0] == ESCAPE && end_marker()[1] == 0x79u8);
                assert(part_marker()[0] == ESCAPE && part_marker()[1] == 0x79u8);
            }
        }
        if n == 0 {
            LineKind::Blank
        } else if n == 1 && data[start] == CR {
            assert(line[0] == CR);
            LineKind::Blank
        } else {
            if n == 1 {
                assert(line[0] == data@[start as int]);
            }
            LineKind::Data
        }
    }
}

/// Decodes a body line by line, each line of data by the path that `fast`
/// chooses.
fn decode_body(data: &[u8], fast: bool) -> (r: Option<Vec<u8>>)
    ensures
        r.is_some() == decode_with(data@, false, fast).is_some(),
        r.is_some() ==> r.unwrap()@ == decode_with(data@, false, fast).unwrap(),
{
    let mut out: Vec<u8> = Vec::new();
    let mut pos: usize = 0;
    let mut in_data: bool = false;
    proof {
        assert(data@.skip(0) =~= data@);
        let whole = decode_with(data@, false, fast);
        if whole.is_some() {
            assert(out@ + whole.unwrap() =~= whole.unwrap());
        }
    }
    loop
        invariant
            pos <= data.len(),
            decode_with(data@, false, fast) == then_rest(
                out@,
                decode_with(data@.skip(pos as int), in_data, fast),
            ),
        decreases data.len() - pos,
    {
        let ghost tail = data@.skip(pos as int);
        let ghost before = out@;
        let end: usize = find_line_end(data, pos);
        assert(tail.take(end - pos) =~= data@.subrange(pos as int, end as int));
        let ghost line = data@.subrange(pos as int, end as int);
        let more: bool = end < data.len();
        proof {
            if more {
                assert(tail.skip(end - pos + 1) =~= data@.skip(end + 1));
            }
            assert(before + Seq::<u8>::empty() =~= before);
        }
        match classify_line(data, pos, end) {
            LineKind::End => {
                return Some(out);
            },
            LineKind::Begin => {
                in_data = true;
            },
            LineKind::Part => {},
            LineKind::Blank => {},
            LineKind::Data => {
                if !in_data {
                    return None;
                }
                let ok: bool = if fast {
                    decode_line_blocks(data, pos, end, &mut out)
                } else {
                    decode_line_scalar(data, pos, end, &mut out)
                };
                if !ok {
                    return None;
                }
                proof {
                    let d = decode_line_by(line, fast).unwrap();
                    if more {
                        let rest = decode_with(data@.skip(end + 1), true, fast);
                        if rest.is_some() {
                            assert((before + d) + rest.unwrap() =~= before + (d + rest.unwrap()));
                        }
                    }
                }
            },
        }
        if !more {
            return Some(out);
        }
        pos = end + 1;
    }
}

/// Decodes an article body by the escape rule alone, byte by byte.
///
/// Returns the decoded bytes, or `None` on a soft failure: a line of data
/// before any `=ybegin`, or a line that ends in an escape byte.
pub fn decode_scalar(data: &[u8]) -> (r: Option<Vec<u8>>)
    ensures
        r.is_some() == decode(data@).is_some(),
        r.is_some() ==> r.unwrap()@ == decode(data@).unwrap(),
{
    decode_body(data, false)
}

/// Decodes an article body, taking the block path on every line that holds
/// neither an escape byte nor a carriage return.
///
/// The result is that of [`decode_scalar`] on every input.
pub fn decode_fast(data: &[u8]) -> (r: Option<Vec<u8>>)
    ensures
        r.is_some() == decode_with(data@, false, true).is_some(),
        r.is_some() ==> r.unwrap()@ == decode_with(data@, false, true).unwrap(),
        r.is_some() == decode(data@).is_some(),
        r.is_some() ==> r.unwrap()@ == decode(data@).unwrap(),
{
    proof {
        lemma_paths_agree(data@, false);
    }
    decode_body(data, true)
}

/// Whether an encoded byte must be escaped: NUL, line feed, carriage return
/// and the escape byte itself.
pub open spec fn needs_escape(e: u8) -> bool {
    e == 0 || e == LF || e == CR || e == ESCAPE
}

/// The encoded form of one source byte: one byte, or an escape and one byte.
pub open spec fn encode_byte(b: u8) -> Seq<u8> {
    let e = shift(b);
    if needs_escape(e) {
        seq![ESCAPE, (e + 64) as u8]
    } else {
        seq![e]
    }
}

/// The encoded form of a run of source bytes, without line breaks.
pub open spec fn encode_line(raw: Seq<u8>) -> Seq<u8>
    decreases raw.len(),
{
    if raw.len() == 0 {
        Seq::empty()
    } else {
        encode_byte(raw[0]) + encode_line(raw.skip(1))
    }
}

/// How many source bytes go on the next line: `width`, or all that is left
/// where that is less or `width` is zero.
pub open spec fn chunk_len(left: nat, width: nat) -> nat {
    if width == 0 || width >= left {
        left
    } else {
        width
    }
}

/// The encoded lines of `raw`, each of `width` source bytes (the last may be
/// shorter) and each closed by a line feed.
pub open spec fn encode_lines(raw: Seq<u8>, width: nat) -> Seq<u8>
    decreases raw.len(),
{
    if raw.len() == 0 {
        Seq::empty()
    } else {
        let k = chunk_len(raw.len(), width) as int;
        encode_line(raw.take(k)) + seq![LF] + encode_lines(raw.skip(k), width)
    }
}

/// A whole body: a `=ybegin` line, the encoded lines, a `=yend` line.
pub open spec fn encode(raw: Seq<u8>, width: nat) -> Seq<u8> {
    begin_marker() + seq![LF] + encode_lines(raw, width) + end_marker() + seq![LF]
}

/// Decoding undoes the encoding of a byte: `unshift(shift(b)) == b`, and an
/// escaped byte comes back as well.
pub proof fn lemma_byte_round_trip(b: u8)
    ensures
        unshift(shift(b)) == b,
        needs_escape(shift(b)) ==> unescape((shift(b) + 64) as u8) == b,
{
}

/// An encoded line decodes to its source.
pub proof fn lemma_line_round_trip(raw: Seq<u8>)
    ensures
        decode_line(encode_line(raw)) == Some(raw),
    decreases raw.len(),
{
    if raw.len() == 0 {
    } else {
        let tail = raw.skip(1);
        let head = encode_byte(raw[0]);
        let line = encode_line(raw);
        lemma_line_round_trip(tail);
        lemma_byte_round_trip(raw[0]);
        assert(line.skip(head.len() as int) =~= encode_line(tail));
        assert(line[0] == head[0]);
        if needs_escape(shift(raw[0])) {
            assert(line[1] == head[1]);
        }
        assert(seq![raw[0]] + tail =~= raw);
    }
}

/// An encoded line holds no line feed; where the source is not empty it is a
/// line of data: no marker and not blank.
pub proof fn lemma_encoded_line_shape(raw: Seq<u8>)
    ensures
        forall|i: int| 0 <= i < encode_line(raw).len() ==> encode_line(raw)[i] != LF,
        raw.len() > 0 ==> classify(encode_line(raw)) == LineKind::Data,
    decreases raw.len(),
{
    if raw.len() > 0 {
        let tail = raw.skip(1);
        let head = encode_byte(raw[0]);
        let line = encode_line(raw);
        lemma_encoded_line_shape(tail);
        assert forall|i: int| 0 <= i < line.len() implies line[i] != LF by {
            if i < head.len() {
                assert(line[i] == head[i]);
            } else {
                assert(line[i] == encode_line(tail)[i - head.len()]);
            }
        }
        assert(line[0] == head[0]);
        if needs_escape(shift(raw[0])) {
            assert(line[1] == head[1]);
        }
        assert(begin_marker()[0] == ESCAPE && begin_marker()[1] == 0x79u8);
        assert(end_marker()[0] == ESCAPE && end_marker()[1] == 0x79u8);
        assert(part_marker()[0] == ESCAPE && part_marker()[1] == 0x79u8);
    }
}

/// The first line of `line + [LF] + rest` is `line`, where `line` holds no
/// line feed.
pub proof fn lemma_first_line(line: Seq<u8>, rest: Seq<u8>)
    requires
        forall|i: int| 0 <= i < line.len() ==> line[i] != LF,
    ensures
        line_len(line + seq![LF] + rest) == line.len(),
        (line + seq![LF] + rest).take(line.len() as int) == line,
        (line + seq![LF] + rest).skip(line.len() as int + 1) == rest,
    decreases line.len(),
{
    let whole = line + seq![LF] + rest;
    assert(whole.take(line.len() as int) =~= line);
    assert(whole.skip(line.len() as int + 1) =~= rest);
    if line.len() == 0 {
        assert(whole[0] == LF);
    } else {
        assert(whole[0] == line[0]);
        let tail = line.skip(1);
        assert forall|i: int| 0 <= i < tail.len() implies tail[i] != LF by {
            assert(tail[i] == line[i + 1]);
        }
        lemma_first_line(tail, rest);
        assert(whole.skip(1) =~= tail + seq![LF] + rest);
    }
}

/// Inside the data, the encoded lines of `raw` followed by a `=yend` line
/// decode to `raw`.
pub proof fn lemma_lines_round_trip(raw: Seq<u8>, width: nat)
    ensures
        decode_with(encode_lines(raw, width) + end_marker() + seq![LF], true, false) == Some(raw),
    decreases raw.len(),
{
    let data = encode_lines(raw, width) + end_marker() + seq![LF];
    if raw.len() == 0 {
        assert(data =~= end_marker() + seq![LF] + Seq::<u8>::empty());
        lemma_first_line(end_marker(), Seq::<u8>::empty());
        assert(!has_prefix(end_marker(), begin_marker()));
        assert(classify(end_marker()) == LineKind::End);
    } else {
        let k = chunk_len(raw.len(), width) as int;
        let chunk = raw.take(k);
        let line = encode_line(chunk);
        let rest = encode_lines(raw.skip(k), width) + end_marker() + seq![LF];
        assert(data =~= line + seq![LF] + rest);
        lemma_encoded_line_shape(chunk);
        lemma_first_line(line, rest);
        lemma_line_round_trip(chunk);
        lemma_lines_round_trip(raw.skip(k), width);
        assert(rest.len() > 0);
        assert(chunk + raw.skip(k) =~= raw);
    }
}

/// Round trip: every byte sequence, encoded with any line width, decodes to
/// itself, by the escape rule and by the block path alike.
pub proof fn lemma_round_trip(raw: Seq<u8>, width: nat)
    ensures
        decode(encode(raw, width)) == Some(raw),
        decode_with(encode(raw, width), false, true) == Some(raw),
{
    let rest = encode_lines(raw, width) + end_marker() + seq![LF];
    let data = encode(raw, width);
    assert(data =~= begin_marker() + seq![LF] + rest);
    assert(forall|i: int| 0 <= i < begin_marker().len() ==> begin_marker()[i] != LF);
    lemma_first_line(begin_marker(), rest);
    assert(classify(begin_marker()) == LineKind::Begin);
    lemma_lines_round_trip(raw, width);
    lemma_paths_agree(data, false);
}

/// A line shifted byte by byte, with no escaping.
pub open spec fn shift_line(raw: Seq<u8>) -> Seq<u8> {
    Seq::new(raw.len(), |i: int| shift(raw[i]))
}

/// Where no shifted byte is an escape byte, a carriage return or a line feed,
/// the shifted line decodes to its source by the escape rule and by the block
/// path alike.
pub proof fn lemma_shifted_line_round_trip(raw: Seq<u8>)
    requires
        forall|i: int|
            0 <= i < raw.len() ==> shift(raw[i]) != ESCAPE && shift(raw[i]) != CR && shift(raw[i])
                != LF,
    ensures
        decode_line(shift_line(raw)) == Some(raw),
        decode_line_fast(shift_line(raw)) == Some(raw),
{
    let line = shift_line(raw);
    assert(line_is_plain(line));
    lemma_plain_line(line);
    assert forall|i: int| 0 <= i < raw.len() implies decode_plain(line)[i] == raw[i] by {
        lemma_byte_round_trip(raw[i]);
    }
    assert(decode_plain(line) =~= raw);
}

/// Encoding a run with one more byte appends that byte's encoded form.
pub proof fn lemma_encode_line_push(raw: Seq<u8>, b: u8)
    ensures
        encode_line(raw.push(b)) == encode_line(raw) + encode_byte(b),
    decreases raw.len(),
{
    let longer = raw.push(b);
    if raw.len() == 0 {
        assert(longer.skip(1) =~= Seq::<u8>::empty());
        assert(encode_line(longer.skip(1)) =~= Seq::<u8>::empty());
        assert(encode_line(longer) =~= encode_byte(b));
        assert(encode_line(raw) + encode_byte(b) =~= encode_byte(b));
    } else {
        lemma_encode_line_push(raw.skip(1), b);
        assert(longer.skip(1) =~= raw.skip(1).push(b));
        assert(longer[0] == raw[0]);
        assert(encode_byte(raw[0]) + (encode_line(raw.skip(1)) + encode_byte(b)) =~= (encode_byte(
            raw[0],
        ) + encode_line(raw.skip(1))) + encode_byte(b));
    }
}

/// Encodes one source byte before any escaping.
pub fn shift_byte(b: u8) -> (r: u8)
    ensures
        r == shift(b),
{
    b.wrapping_add(42)
}

/// Encodes `raw` as a body: a `=ybegin` line, lines of `width` source bytes
/// each (all on one line where `width` is zero), and a `=yend` line.
pub fn encode_body(raw: &[u8], width: usize) -> (out: Vec<u8>)
    ensures
        out@ == encode(raw@, width as nat),
{
    let mut out: Vec<u8> = Vec::new();
    out.push(ESCAPE);
    out.push(0x79);
    out.push(0x62);
    out.push(0x65);
    out.push(0x67);
    out.push(0x69);
    out.push(0x6E);
    out.push(LF);
    let ghost head = begin_marker() + seq![LF];
    assert(out@ =~= head);
    let mut i: usize = 0;
    assert(raw@.skip(0) =~= raw@);
    while i < raw.len()
        invariant
            i <= raw.len(),
            head == begin_marker() + seq![LF],
            out@ + encode_lines(raw@.skip(i as int), width as nat) == head + encode_lines(
                raw@,
                width as nat,
            ),
        decreases raw.len() - i,
    {
        let left: usize = raw.len() - i;
        let k: usize = if width == 0 || width >= left {
            left
        } else {
            width
        };
        let stop: usize = i + k;
        let ghost before = out@;
        let ghost tail = raw@.skip(i as int);
        assert(k == chunk_len(tail.len(), width as nat));
        assert(tail.take(k as int) =~= raw@.subrange(i as int, stop as int));
        assert(tail.skip(k as int) =~= raw@.skip(stop as int));
        let mut j: usize = i;
        assert(raw@.subrange(i as int, i as int) =~= Seq::<u8>::empty());
        assert(before + encode_line(Seq::<u8>::empty()) =~= before);
        while j < stop
            invariant
                i <= j <= stop <= raw.len(),
                out@ == before + encode_line(raw@.subrange(i as int, j as int)),
            decreases stop - j,
        {
            let b: u8 = raw[j];
            let e: u8 = shift_byte(b);
            proof {
                lemma_encode_line_push(raw@.subrange(i as int, j as int), b);
                assert(raw@.subrange(i as int, j as int).push(b) =~= raw@.subrange(
                    i as int,
                    j + 1,
                ));
            }
            if e == 0 || e == LF || e == CR || e == ESCAPE {
                out.push(ESCAPE);
                out.push(e + 64);
            } else {
                out.push(e);
            }
            assert(out@ =~= before + (encode_line(raw@.subrange(i as int, j as int)) + encode_byte(
                b,
            )));
            j = j + 1;
        }
        out.push(LF);
        proof {
            let line = encode_line(raw@.subrange(i as int, stop as int));
            let rest = encode_lines(raw@.skip(stop as int), width as nat);
            assert(out@ + rest =~= before + (line + seq![LF] + rest));
        }
        i = stop;
    }
    assert(encode_lines(raw@.skip(i as int), width as nat) =~= Seq::<u8>::empty());
    let ghost lines = out@;
    assert(lines =~= head + encode_lines(raw@, width as nat));
    out.push(ESCAPE);
    out.push(0x79);
    out.push(0x65);
    out.push(0x6E);
    out.push(0x64);
    out.push(LF);
    assert(out@ =~= lines + end_marker() + seq![LF]);
    assert(out@ =~= encode(raw@, width as nat));
    out
}

} // verus!
