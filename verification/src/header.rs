//! The header block: every header as `name: value` and a line end, then one
//! more line end, in ISO 8859-1.

use crate::error::Error;
use crate::error::ErrorView;
use crate::iso_8859_1::encode_latin_1;
use crate::iso_8859_1::is_latin_1;
use crate::iso_8859_1::latin_1_bytes;
use crate::iso_8859_1::latin_1_chars;
use crate::iso_8859_1::lemma_latin_1_char;
use crate::iso_8859_1::lemma_latin_1_round_trip;
use vstd::prelude::*;

verus! {

/// The two bytes between a name and its value: a colon and a space.
pub open spec fn separator() -> Seq<u8> {
    seq![0x3au8, 0x20u8]
}

/// The two bytes that end a line: carriage return and line feed.
pub open spec fn line_end() -> Seq<u8> {
    seq![0x0du8, 0x0au8]
}

/// One header on the wire.
pub open spec fn header_line(name: Seq<char>, value: Seq<char>) -> Seq<u8> {
    latin_1_bytes(name) + separator() + latin_1_bytes(value) + line_end()
}

/// The lines of `headers`, in order.
pub open spec fn header_lines(headers: Seq<(Seq<char>, Seq<char>)>) -> Seq<u8>
    decreases headers.len(),
{
    if headers.len() == 0 {
        Seq::empty()
    } else {
        header_line(headers[0].0, headers[0].1) + header_lines(headers.drop_first())
    }
}

/// The whole block: the lines, closed by an empty line.
pub open spec fn header_block(headers: Seq<(Seq<char>, Seq<char>)>) -> Seq<u8> {
    header_lines(headers) + line_end()
}

/// Whether every name and every value fits ISO 8859-1.
pub open spec fn encodable(headers: Seq<(Seq<char>, Seq<char>)>) -> bool {
    forall|i: int|
        0 <= i < headers.len() ==> is_latin_1((#[trigger] headers[i]).0) && is_latin_1(
            headers[i].1,
        )
}

/// The first string that does not fit ISO 8859-1, going through the headers
/// in order, each name before its value. Meant for headers that are not
/// [`encodable`].
pub open spec fn first_offender(headers: Seq<(Seq<char>, Seq<char>)>) -> Seq<char>
    decreases headers.len(),
{
    if headers.len() == 0 {
        Seq::empty()
    } else if !is_latin_1(headers[0].0) {
        headers[0].0
    } else if !is_latin_1(headers[0].1) {
        headers[0].1
    } else {
        first_offender(headers.drop_first())
    }
}

/// What [`first_offender`] names when the headers are not [`encodable`]: a
/// name or a value among them that does not fit ISO 8859-1.
pub proof fn lemma_first_offender(headers: Seq<(Seq<char>, Seq<char>)>)
    requires
        !encodable(headers),
    ensures
        !is_latin_1(first_offender(headers)),
        exists|i: int|
            0 <= i < headers.len() && (first_offender(headers) == (#[trigger] headers[i]).0
                || first_offender(headers) == headers[i].1),
    decreases headers.len(),
{
    let bad = choose|i: int|
        0 <= i < headers.len() && !(is_latin_1((#[trigger] headers[i]).0) && is_latin_1(
            headers[i].1,
        ));
    if is_latin_1(headers[0].0) && is_latin_1(headers[0].1) {
        let rest = headers.drop_first();
        assert(rest[bad - 1] == headers[bad]);
        lemma_first_offender(rest);
        let at = choose|i: int|
            0 <= i < rest.len() && (first_offender(rest) == (#[trigger] rest[i]).0
                || first_offender(rest) == rest[i].1);
        assert(headers[at + 1] == rest[at]);
    }
}

/// The lines of a list with one more header are the list's lines and then
/// that header's line.
pub proof fn lemma_lines_push(
    headers: Seq<(Seq<char>, Seq<char>)>,
    name: Seq<char>,
    value: Seq<char>,
)
    ensures
        header_lines(headers.push((name, value))) == header_lines(headers) + header_line(
            name,
            value,
        ),
    decreases headers.len(),
{
    let longer = headers.push((name, value));
    if headers.len() == 0 {
        assert(longer.drop_first() =~= headers);
    } else {
        assert(longer.drop_first() =~= headers.drop_first().push((name, value)));
        lemma_lines_push(headers.drop_first(), name, value);
    }
}

/// A header that fits ISO 8859-1, put after the others, changes neither
/// whether the list can be encoded nor which string is the first that
/// cannot.
pub proof fn lemma_push_latin_1(
    headers: Seq<(Seq<char>, Seq<char>)>,
    name: Seq<char>,
    value: Seq<char>,
)
    requires
        is_latin_1(name),
        is_latin_1(value),
    ensures
        encodable(headers.push((name, value))) == encodable(headers),
        !encodable(headers) ==> first_offender(headers.push((name, value))) == first_offender(
            headers,
        ),
    decreases headers.len(),
{
    let longer = headers.push((name, value));
    if encodable(headers) {
        assert forall|i: int| 0 <= i < longer.len() implies is_latin_1(
            (#[trigger] longer[i]).0,
        ) && is_latin_1(longer[i].1) by {
            if i < headers.len() {
                assert(longer[i] == headers[i]);
            }
        }
    } else {
        let bad = choose|i: int|
            0 <= i < headers.len() && !(is_latin_1((#[trigger] headers[i]).0) && is_latin_1(
                headers[i].1,
            ));
        assert(longer[0] == headers[0]);
        if is_latin_1(headers[0].0) && is_latin_1(headers[0].1) {
            let rest = headers.drop_first();
            assert(rest[bad - 1] == headers[bad]);
            assert(longer.drop_first() =~= rest.push((name, value)));
            lemma_push_latin_1(rest, name, value);
        }
    }
}

/// One header as it goes on the wire.
///
/// Fails with [`Error::Encoding`] when the name or the value has a
/// character above code point 255: the error holds the name if the name has
/// one, else the value.
pub fn encode_line(name: &str, value: &str) -> (r: Result<Vec<u8>, Error>)
    ensures
        match r {
            Ok(line) => is_latin_1(name@) && is_latin_1(value@) && line@ == header_line(
                name@,
                value@,
            ),
            Err(e) => if is_latin_1(name@) {
                !is_latin_1(value@) && e@ == ErrorView::Encoding(value@)
            } else {
                e@ == ErrorView::Encoding(name@)
            },
        },
{
    let mut line: Vec<u8> = match encode_latin_1(name) {
        Some(bytes) => bytes,
        None => {
            return Err(Error::Encoding(name.to_owned()));
        },
    };
    let mut rest: Vec<u8> = match encode_latin_1(value) {
        Some(bytes) => bytes,
        None => {
            return Err(Error::Encoding(value.to_owned()));
        },
    };
    line.push(0x3a);
    line.push(0x20);
    line.append(&mut rest);
    line.push(0x0d);
    line.push(0x0a);
    Ok(line)
}

/// The lines of `headers`, in order, without the closing empty line.
///
/// Fails with [`Error::Encoding`], holding the [`first_offender`], when a
/// name or a value has a character above code point 255.
pub fn encode_lines(headers: &Vec<(String, String)>) -> (r: Result<Vec<u8>, Error>)
    ensures
        match r {
            Ok(lines) => encodable(headers.deep_view()) && lines@ == header_lines(
                headers.deep_view(),
            ),
            Err(e) => !encodable(headers.deep_view()) && e@ == ErrorView::Encoding(
                first_offender(headers.deep_view()),
            ),
        },
{
    let ghost all = headers.deep_view();
    let mut out: Vec<u8> = Vec::new();
    let mut i: usize = 0;
    assert(all.skip(0) =~= all);
    while i < headers.len()
        invariant
            0 <= i <= headers.len(),
            all == headers.deep_view(),
            all.len() == headers.len(),
            encodable(all.take(i as int)),
            out@ == header_lines(all.take(i as int)),
            first_offender(all) == first_offender(all.skip(i as int)),
        decreases headers.len() - i,
    {
        let ghost name = all[i as int].0;
        let ghost value = all[i as int].1;
        assert(all.skip(i as int).drop_first() =~= all.skip(i + 1));
        match encode_line(headers[i].0.as_str(), headers[i].1.as_str()) {
            Ok(mut line) => {
                out.append(&mut line);
                proof {
                    assert(all.take(i + 1) =~= all.take(i as int).push((name, value)));
                    lemma_lines_push(all.take(i as int), name, value);
                    assert forall|j: int| 0 <= j < i + 1 implies is_latin_1(
                        (#[trigger] all.take(i + 1)[j]).0,
                    ) && is_latin_1(all.take(i + 1)[j].1) by {
                        if j < i {
                            assert(all.take(i + 1)[j] == all.take(i as int)[j]);
                        }
                    }
                }
            },
            Err(e) => {
                return Err(e);
            },
        }
        i = i + 1;
    }
    Ok(out)
}

/// The header block of `headers`: their lines and the closing empty line.
///
/// Fails as [`encode_lines`] does.
pub fn encode_headers(headers: &Vec<(String, String)>) -> (r: Result<Vec<u8>, Error>)
    ensures
        match r {
            Ok(block) => encodable(headers.deep_view()) && block@ == header_block(
                headers.deep_view(),
            ),
            Err(e) => !encodable(headers.deep_view()) && e@ == ErrorView::Encoding(
                first_offender(headers.deep_view()),
            ),
        },
{
    let mut block: Vec<u8> = encode_lines(headers)?;
    block.push(0x0d);
    block.push(0x0a);
    Ok(block)
}

/// The position of the first `a` that is directly followed by `b`, or the
/// length of `s` when there is none.
pub open spec fn find_pair(s: Seq<u8>, a: u8, b: u8) -> int
    decreases s.len(),
{
    if s.len() < 2 {
        s.len() as int
    } else if s[0] == a && s[1] == b {
        0
    } else {
        1 + find_pair(s.drop_first(), a, b)
    }
}

/// Reads one line, without its line end, as a name and a value: the name
/// ends where a colon and a space first stand. `None` when they stand
/// nowhere.
pub open spec fn decode_line(line: Seq<u8>) -> Option<(Seq<char>, Seq<char>)> {
    let at = find_pair(line, 0x3a, 0x20);
    if at + 2 <= line.len() {
        Some((latin_1_chars(line.take(at)), latin_1_chars(line.skip(at + 2))))
    } else {
        None
    }
}

/// Reads a header block back: line after line up to the empty line, which
/// has to be the end of the block. `None` when the block is not made that
/// way.
pub open spec fn decode_block(block: Seq<u8>) -> Option<Seq<(Seq<char>, Seq<char>)>>
    decreases block.len(),
{
    let end = find_pair(block, 0x0d, 0x0a);
    if end < 0 || end + 2 > block.len() {
        None
    } else if end == 0 {
        if block.len() == 2 {
            Some(Seq::empty())
        } else {
            None
        }
    } else {
        match (decode_line(block.take(end)), decode_block(block.skip(end + 2))) {
            (Some(header), Some(rest)) => Some(seq![header] + rest),
            _ => None,
        }
    }
}

/// Whether `a` stands somewhere in `s` directly before `b`.
pub open spec fn has_pair(s: Seq<char>, a: char, b: char) -> bool {
    exists|i: int| 0 <= i && i + 1 < s.len() && #[trigger] s[i] == a && s[i + 1] == b
}

/// Whether a block of these headers can be read back in one way only: no
/// name holds a colon followed by a space, and neither a name nor a value
/// holds a line end.
pub open spec fn unambiguous(headers: Seq<(Seq<char>, Seq<char>)>) -> bool {
    forall|i: int|
        0 <= i < headers.len() ==> {
            &&& !has_pair((#[trigger] headers[i]).0, ':', ' ')
            &&& !has_pair(headers[i].0, '\r', '\n')
            &&& !has_pair(headers[i].1, '\r', '\n')
        }
}

/// What [`find_pair`] finds: a place where the pair stands, with room for
/// it, or the length; and the pair stands nowhere before that place.
pub proof fn lemma_find_pair(s: Seq<u8>, a: u8, b: u8)
    ensures
        0 <= find_pair(s, a, b) <= s.len(),
        find_pair(s, a, b) < s.len() ==> find_pair(s, a, b) + 2 <= s.len() && s[find_pair(
            s,
            a,
            b,
        )] == a && s[find_pair(s, a, b) + 1] == b,
        forall|i: int|
            0 <= i < find_pair(s, a, b) && i + 1 < s.len() ==> !(#[trigger] s[i] == a && s[i + 1]
                == b),
    decreases s.len(),
{
    if s.len() >= 2 && !(s[0] == a && s[1] == b) {
        let rest = s.drop_first();
        lemma_find_pair(rest, a, b);
        assert forall|i: int| 0 <= i < find_pair(s, a, b) && i + 1 < s.len() implies !(
        #[trigger] s[i] == a && s[i + 1] == b) by {
            if i > 0 {
                assert(s[i] == rest[i - 1]);
            }
        }
    }
}

/// A place where the pair stands, with the pair nowhere before it, is the
/// one that [`find_pair`] finds.
pub proof fn lemma_find_pair_is(s: Seq<u8>, a: u8, b: u8, at: int)
    requires
        0 <= at,
        at + 2 <= s.len(),
        s[at] == a,
        s[at + 1] == b,
        forall|i: int| 0 <= i < at ==> !(#[trigger] s[i] == a && s[i + 1] == b),
    ensures
        find_pair(s, a, b) == at,
{
    lemma_find_pair(s, a, b);
    let found = find_pair(s, a, b);
    if found < at {
        assert(!(s[found] == a && s[found + 1] == b));
    } else if found > at {
        assert(!(s[at] == a && s[at + 1] == b));
    }
}

/// The line of a header whose name holds no colon followed by a space reads
/// back as that header.
pub proof fn lemma_line_round_trip(name: Seq<char>, value: Seq<char>)
    requires
        is_latin_1(name),
        is_latin_1(value),
        !has_pair(name, ':', ' '),
    ensures
        decode_line(latin_1_bytes(name) + separator() + latin_1_bytes(value)) == Some(
            (name, value),
        ),
{
    let line = latin_1_bytes(name) + separator() + latin_1_bytes(value);
    let at = name.len() as int;
    // No colon and space stand before the separator: not within the name,
    // and not across its end, where a colon follows.
    assert forall|i: int| 0 <= i < at implies !(#[trigger] line[i] == 0x3au8 && line[i + 1]
        == 0x20u8) by {
        lemma_latin_1_char(name[i]);
        if i + 1 < at {
            lemma_latin_1_char(name[i + 1]);
            assert(!(name[i] == ':' && name[i + 1] == ' '));
        }
    }
    lemma_find_pair_is(line, 0x3a, 0x20, at);
    assert(line.take(at) =~= latin_1_bytes(name));
    assert(line.skip(at + 2) =~= latin_1_bytes(value));
    lemma_latin_1_round_trip(name);
    lemma_latin_1_round_trip(value);
}

/// Round trip: a header block reads back as the headers it was made from,
/// in their order, whenever they fit ISO 8859-1 and are [`unambiguous`].
pub proof fn lemma_block_round_trip(headers: Seq<(Seq<char>, Seq<char>)>)
    requires
        encodable(headers),
        unambiguous(headers),
    ensures
        decode_block(header_block(headers)) == Some(headers),
    decreases headers.len(),
{
    let block = header_block(headers);
    if headers.len() == 0 {
        assert(block =~= line_end());
        lemma_find_pair_is(block, 0x0d, 0x0a, 0);
        assert(headers =~= Seq::empty());
    } else {
        let name = headers[0].0;
        let value = headers[0].1;
        let rest = headers.drop_first();
        let line = latin_1_bytes(name) + separator() + latin_1_bytes(value);
        let end = line.len() as int;
        assert(block =~= line + line_end() + header_block(rest));
        // No line end stands before the one that closes the first line: not
        // within the name or the value, and not across the separator or the
        // end of the value, where no line feed follows.
        assert forall|i: int| 0 <= i < end implies !(#[trigger] block[i] == 0x0du8 && block[i + 1]
            == 0x0au8) by {
            let n = name.len() as int;
            if i < n {
                lemma_latin_1_char(name[i]);
                if i + 1 < n {
                    lemma_latin_1_char(name[i + 1]);
                    assert(!(name[i] == '\r' && name[i + 1] == '\n'));
                }
            } else if i >= n + 2 {
                lemma_latin_1_char(value[i - n - 2]);
                if i + 1 < end {
                    lemma_latin_1_char(value[i + 1 - n - 2]);
                    assert(!(value[i - n - 2] == '\r' && value[i - n - 2 + 1] == '\n'));
                }
            }
        }
        lemma_find_pair_is(block, 0x0d, 0x0a, end);
        assert(block.take(end) =~= line);
        assert(block.skip(end + 2) =~= header_block(rest));
        lemma_line_round_trip(name, value);
        assert forall|i: int| 0 <= i < rest.len() implies {
            &&& is_latin_1((#[trigger] rest[i]).0)
            &&& is_latin_1(rest[i].1)
            &&& !has_pair(rest[i].0, ':', ' ')
            &&& !has_pair(rest[i].0, '\r', '\n')
            &&& !has_pair(rest[i].1, '\r', '\n')
        } by {
            assert(rest[i] == headers[i + 1]);
        }
        lemma_block_round_trip(rest);
        assert(seq![(name, value)] + rest =~= headers);
    }
}

/// The round trip holds of no other headers: where a block reads back as
/// the headers it was made from, they are [`unambiguous`].
pub proof fn lemma_block_round_trip_only(headers: Seq<(Seq<char>, Seq<char>)>)
    requires
        encodable(headers),
        decode_block(header_block(headers)) == Some(headers),
    ensures
        unambiguous(headers),
    decreases headers.len(),
{
    if headers.len() > 0 {
        let block = header_block(headers);
        let name = headers[0].0;
        let value = headers[0].1;
        let rest = headers.drop_first();
        let line = latin_1_bytes(name) + separator() + latin_1_bytes(value);
        let n = name.len() as int;
        assert(block =~= line + line_end() + header_block(rest));
        // The first line end stands no later than the one that closes the
        // first line. What is read before it has the length of the name, the
        // separator and the value, so it is that very line end.
        lemma_find_pair(block, 0x0d, 0x0a);
        let end = find_pair(block, 0x0d, 0x0a);
        if end > line.len() {
            assert(block[line.len() as int] == 0x0du8);
        }
        let head = block.take(end);
        let tail = block.skip(end + 2);
        let read = decode_line(head)->0;
        let others = decode_block(tail)->0;
        assert(headers[0] == (seq![read] + others)[0]);
        assert(rest =~= others);
        lemma_find_pair(head, 0x3a, 0x20);
        let at = find_pair(head, 0x3a, 0x20);
        assert(head.take(at).len() == n);
        assert(head.skip(at + 2).len() == value.len());
        assert(end == line.len());
        assert(head =~= line);
        assert(tail =~= header_block(rest));
        assert(!has_pair(name, ':', ' ')) by {
            if has_pair(name, ':', ' ') {
                let i = choose|i: int|
                    0 <= i && i + 1 < name.len() && #[trigger] name[i] == ':' && name[i + 1]
                        == ' ';
                assert(head[i] == 0x3au8 && head[i + 1] == 0x20u8);
            }
        }
        assert(!has_pair(name, '\r', '\n')) by {
            if has_pair(name, '\r', '\n') {
                let i = choose|i: int|
                    0 <= i && i + 1 < name.len() && #[trigger] name[i] == '\r' && name[i + 1]
                        == '\n';
                assert(block[i] == 0x0du8 && block[i + 1] == 0x0au8);
            }
        }
        assert(!has_pair(value, '\r', '\n')) by {
            if has_pair(value, '\r', '\n') {
                let i = choose|i: int|
                    0 <= i && i + 1 < value.len() && #[trigger] value[i] == '\r' && value[i + 1]
                        == '\n';
                assert(block[n + 2 + i] == 0x0du8 && block[n + 2 + i + 1] == 0x0au8);
            }
        }
        assert forall|i: int| 0 <= i < rest.len() implies is_latin_1((#[trigger] rest[i]).0)
            && is_latin_1(rest[i].1) by {
            assert(rest[i] == headers[i + 1]);
        }
        lemma_block_round_trip_only(rest);
        assert forall|i: int| 0 <= i < headers.len() implies {
            &&& !has_pair((#[trigger] headers[i]).0, ':', ' ')
            &&& !has_pair(headers[i].0, '\r', '\n')
            &&& !has_pair(headers[i].1, '\r', '\n')
        } by {
            if i > 0 {
                assert(headers[i] == rest[i - 1]);
            }
        }
    }
}

} // verus!
