//! The stub: the small text file that stands where an application expects its
//! database, and names the broker that owns the real one.
use vstd::prelude::*;
use vstd::utf8::{
    decode_utf8, encode_utf8, encode_utf8_decode_utf8, encode_utf8_valid_utf8, valid_utf8,
};

use crate::text::{
    a_line_ends_at_its_newline, begins_with, chars_of, copy_text, first_is_index_of, index_of,
    index_of_is_first, is_space, lines, lines_of, same_text, space, texts, trim, trim_of_tight,
    trimmed, without_cr,
};
use crate::utf8::{ascii_first, text_of_bytes};

verus! {

/// The first line of every stub.
pub const STUB_MAGIC: &'static str = "SQLITEBROKER1";

/// The text of the stub that names `addr`.
pub open spec fn stub_text(addr: Seq<char>) -> Seq<char> {
    STUB_MAGIC@ + seq!['\n'] + addr + seq!['\n']
}

/// Whether a text can be the address in a stub: not empty, without whitespace.
pub open spec fn is_address(s: Seq<char>) -> bool {
    s.len() > 0 && forall|i: int| 0 <= i < s.len() ==> !is_space(#[trigger] s[i])
}

/// The address that a stub's text names: its second line, trimmed, where the
/// first line is the magic word.
pub open spec fn stub_address(text: Seq<char>) -> Option<Seq<char>> {
    let ls = lines(text);
    if ls.len() >= 2 && ls[0] == STUB_MAGIC@ && is_address(trim(ls[1])) {
        Some(trim(ls[1]))
    } else {
        None
    }
}

/// The address that the bytes of a file name, if the file is a stub.
pub open spec fn parsed_stub(bytes: Seq<u8>) -> Option<Seq<char>> {
    if valid_utf8(bytes) {
        stub_address(decode_utf8(bytes))
    } else {
        None
    }
}

/// The text of the stub that names `addr`.
pub fn format_stub(addr: &str) -> (out: String)
    ensures
        out@ == stub_text(addr@),
{
    let mut out = copy_text(STUB_MAGIC);
    out.push('\n');
    out.append(addr);
    out.push('\n');
    assert(out@ == stub_text(addr@));
    out
}

fn is_address_text(s: &str) -> (r: bool)
    ensures
        r == is_address(s@),
{
    let v = chars_of(s);
    if v.len() == 0 {
        return false;
    }
    let mut i: usize = 0;
    while i < v.len()
        invariant
            v@ == s@,
            i <= v.len(),
            forall|j: int| 0 <= j < i ==> !is_space(#[trigger] v[j]),
        decreases v.len() - i,
    {
        if space(v[i]) {
            return false;
        }
        i = i + 1;
    }
    true
}

/// The address that a file's bytes name; `None` where the file is no stub.
pub fn parse_stub(bytes: &[u8]) -> (r: Option<String>)
    ensures
        match r {
            Some(addr) => parsed_stub(bytes@) == Some(addr@),
            None => parsed_stub(bytes@) is None,
        },
{
    let text = match text_of_bytes(bytes) {
        Some(text) => text,
        None => {
            return None;
        },
    };
    let ls = lines_of(text);
    assert(texts(ls@) == lines(text@));
    if ls.len() < 2 {
        return None;
    }
    assert(texts(ls@)[0] == ls[0]@);
    assert(texts(ls@)[1] == ls[1]@);
    if !same_text(ls[0].as_str(), STUB_MAGIC) {
        return None;
    }
    let addr = trimmed(ls[1].as_str());
    if is_address_text(addr.as_str()) {
        Some(addr)
    } else {
        None
    }
}

/// A stub names the address that it was written with.
pub proof fn stub_reads_back(addr: Seq<char>)
    requires
        is_address(addr),
    ensures
        parsed_stub(encode_utf8(stub_text(addr))) == Some(addr),
{
    reveal_strlit("SQLITEBROKER1");
    let text = stub_text(addr);
    encode_utf8_valid_utf8(text);
    encode_utf8_decode_utf8(text);
    let magic = STUB_MAGIC@;
    first_is_index_of(text, '\n', 13);
    assert(text.take(13) == magic);
    let rest = text.skip(14);
    assert(rest == addr.push('\n'));
    assert forall|j: int| 0 <= j < addr.len() implies #[trigger] rest[j] != '\n' by {
        assert(!is_space(addr[j]));
    }
    first_is_index_of(rest, '\n', addr.len() as int);
    assert(rest.take(addr.len() as int) == addr);
    assert(!is_space(addr.last()));
    assert(without_cr(addr) == addr);
    assert(rest.skip(addr.len() as int + 1) == Seq::<char>::empty());
    assert(lines(rest) == seq![addr] + lines(Seq::<char>::empty()));
    assert(lines(text) == seq![magic] + lines(rest));
    assert(!is_space(addr[0]));
    trim_of_tight(addr);
}

/// An address out of a stub is never empty and holds no whitespace.
pub proof fn stub_address_is_address(bytes: Seq<u8>)
    ensures
        parsed_stub(bytes) matches Some(addr) ==> is_address(addr),
{
}

/// The first line of a text is a prefix of it.
proof fn first_line_is_prefix(text: Seq<char>)
    ensures
        lines(text).len() > 0 ==> begins_with(text, lines(text)[0]),
{
    index_of_is_first(text, '\n');
    let i = index_of(text, '\n');
    if text.len() > 0 {
        if i < text.len() {
            let line = text.take(i);
            assert(text.take(without_cr(line).len() as int) == without_cr(line));
        } else {
            assert(text.take(text.len() as int) == text);
        }
    }
}

/// A SQLite database file is never taken for a stub.
pub proof fn sqlite_file_is_no_stub(bytes: Seq<u8>)
    requires
        begins_with(bytes, encode_utf8("SQLite format 3"@)),
    ensures
        parsed_stub(bytes) is None,
{
    reveal_strlit("SQLite format 3");
    reveal_strlit("SQLITEBROKER1");
    let head = "SQLite format 3"@;
    vstd::utf8::is_ascii_chars_encode_utf8(head);
    if valid_utf8(bytes) {
        let h = encode_utf8(head);
        assert(bytes.take(h.len() as int) == h);
        assert(bytes[0] == h[0] && bytes[1] == h[1] && bytes[2] == h[2] && bytes[3] == h[3]);
        assert(h[3] == head[3] as u8);
        assert(h[2] == head[2] as u8);
        assert(h[1] == head[1] as u8);
        assert(h[0] == head[0] as u8);
        ascii_first(bytes);
        ascii_first(bytes.skip(1));
        ascii_first(bytes.skip(1).skip(1));
        ascii_first(bytes.skip(1).skip(1).skip(1));
        let text = decode_utf8(bytes);
        let c = text.drop_first().drop_first().drop_first()[0];
        assert(c == 'i');
        assert(c == text[3]);
        first_line_is_prefix(text);
        if lines(text).len() > 0 && lines(text)[0] == STUB_MAGIC@ {
            assert(text.take(13)[3] == STUB_MAGIC@[3]);
        }
    }
}

/// A stub has two lines: what it is, and the address.
pub proof fn a_stub_has_two_lines(addr: Seq<char>)
    ensures
        stub_text(addr) == "SQLITEBROKER1"@ + seq!['\n'] + addr + seq!['\n'],
{
}

/// A file whose first line is any other is no stub.
pub proof fn another_first_line_is_no_stub(line: Seq<char>, rest: Seq<char>)
    requires
        !line.contains('\n'),
        line != "SQLITEBROKER1"@,
        line.len() > 0 ==> line.last() != '\r',
    ensures
        stub_address(line + seq!['\n'] + rest) is None,
{
    a_line_ends_at_its_newline(line, rest);
    let ls = lines(line + seq!['\n'] + rest);
    assert(ls[0] == line);
}

} // verus!
