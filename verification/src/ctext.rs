//! Text with a zero byte as its end, the form in which C programs get it.
use vstd::prelude::*;
use vstd::utf8::{decode_utf8, encode_utf8, valid_utf8};

use crate::runner::{find_zero, first_zero};
use crate::text::same_bytes;
use crate::utf8::{lossy, lossy_text};

verus! {

/// The bytes, with a space in place of each zero byte.
pub open spec fn without_zeros(bytes: Seq<u8>) -> Seq<u8> {
    bytes.map_values(
        |b: u8|
            if b == 0 {
                32u8
            } else {
                b
            },
    )
}

/// The bytes that stand for a text.
pub open spec fn c_bytes(text: Seq<char>) -> Seq<u8> {
    without_zeros(encode_utf8(text))
}

/// Text with a zero byte as its end and none before it.
#[derive(Debug)]
pub struct CText {
    bytes: Vec<u8>,
}

impl View for CText {
    type V = Seq<u8>;

    /// The bytes before the end.
    closed spec fn view(&self) -> Seq<u8> {
        self.bytes@.drop_last()
    }
}

impl CText {
    #[verifier::type_invariant]
    spec fn ended(self) -> bool {
        &&& self.bytes@.len() > 0
        &&& self.bytes@.last() == 0
        &&& forall|i: int| 0 <= i < self.bytes@.len() - 1 ==> #[trigger] self.bytes@[i] != 0
    }

    /// The bytes with the one that ends them. No other of them is zero.
    pub fn with_end(&self) -> (r: &[u8])
        ensures
            r@ == self@.push(0),
            forall|i: int| 0 <= i < self@.len() ==> #[trigger] self@[i] != 0,
    {
        proof {
            use_type_invariant(self);
            assert(self.bytes@ == self.bytes@.drop_last().push(0));
        }
        self.bytes.as_slice()
    }

    /// Whether these are the bytes before the end.
    pub fn is(&self, bytes: &[u8]) -> (r: bool)
        ensures
            r == (self@ == bytes@),
    {
        proof {
            use_type_invariant(self);
        }
        let n = self.bytes.len() - 1;
        let mine = vstd::slice::slice_subrange(self.bytes.as_slice(), 0, n);
        assert(mine@ == self@);
        same_bytes(mine, bytes)
    }

    /// How many bytes stand before the end.
    pub fn len(&self) -> (n: usize)
        ensures
            n == self@.len(),
    {
        proof {
            use_type_invariant(self);
        }
        self.bytes.len() - 1
    }
}

/// The text for a C program. A zero byte in it becomes a space.
pub fn cstring_lossy(text: &str) -> (r: CText)
    ensures
        r@ == c_bytes(text@),
{
    let raw = text.as_bytes();
    let mut bytes: Vec<u8> = Vec::new();
    let mut i: usize = 0;
    while i < raw.len()
        invariant
            i <= raw.len(),
            bytes@ == without_zeros(raw@).take(i as int),
            forall|j: int| 0 <= j < bytes@.len() ==> #[trigger] bytes@[j] != 0,
        decreases raw.len() - i,
    {
        let b: u8 = if raw[i] == 0 {
            32
        } else {
            raw[i]
        };
        bytes.push(b);
        assert(without_zeros(raw@).take(i + 1) == without_zeros(raw@).take(i as int).push(b));
        i = i + 1;
    }
    let ghost before = bytes@;
    bytes.push(0);
    assert(bytes@.drop_last() == before);
    assert(without_zeros(raw@).take(i as int) == without_zeros(raw@));
    CText { bytes }
}

/// The texts in the form that C programs get.
pub open spec fn all_c_bytes(texts: Seq<String>) -> Seq<Seq<u8>> {
    Seq::new(texts.len(), |i: int| c_bytes(texts[i]@))
}

/// What stands in the C texts.
pub open spec fn views(texts: Seq<CText>) -> Seq<Seq<u8>> {
    Seq::new(texts.len(), |i: int| texts[i]@)
}

/// The texts in the form that C programs get.
pub fn cstrings(texts: &Vec<String>) -> (out: Vec<CText>)
    ensures
        views(out@) == all_c_bytes(texts@),
{
    let mut out: Vec<CText> = Vec::new();
    let mut i: usize = 0;
    while i < texts.len()
        invariant
            i <= texts.len(),
            views(out@) == all_c_bytes(texts@).take(i as int),
        decreases texts.len() - i,
    {
        let ghost before = out@;
        out.push(cstring_lossy(texts[i].as_str()));
        assert(views(out@) == views(before).push(c_bytes(texts@[i as int]@)));
        assert(all_c_bytes(texts@).take(i + 1) == all_c_bytes(texts@).take(i as int).push(
            c_bytes(texts@[i as int]@),
        ));
        i = i + 1;
    }
    assert(all_c_bytes(texts@).take(i as int) == all_c_bytes(texts@));
    out
}

/// The texts in the form that C programs get; an empty one is missing.
pub open spec fn named_c_bytes(texts: Seq<String>) -> Seq<Option<Seq<u8>>> {
    Seq::new(
        texts.len(),
        |i: int|
            if texts[i]@.len() == 0 {
                None
            } else {
                Some(c_bytes(texts[i]@))
            },
    )
}

/// What stands in a C text that may be missing.
pub open spec fn maybe_view(text: Option<CText>) -> Option<Seq<u8>> {
    match text {
        Some(t) => Some(t@),
        None => None,
    }
}

/// What stands in C texts that may be missing.
pub open spec fn maybe_views(texts: Seq<Option<CText>>) -> Seq<Option<Seq<u8>>> {
    Seq::new(texts.len(), |i: int| maybe_view(texts[i]))
}

/// The texts in the form that C programs get; an empty one is missing.
pub fn named_cstrings(texts: &Vec<String>) -> (out: Vec<Option<CText>>)
    ensures
        maybe_views(out@) == named_c_bytes(texts@),
{
    let mut out: Vec<Option<CText>> = Vec::new();
    let mut i: usize = 0;
    while i < texts.len()
        invariant
            i <= texts.len(),
            maybe_views(out@) == named_c_bytes(texts@).take(i as int),
        decreases texts.len() - i,
    {
        let ghost before = out@;
        if is_empty(texts[i].as_str()) {
            out.push(None);
        } else {
            out.push(Some(cstring_lossy(texts[i].as_str())));
        }
        assert(maybe_views(out@) == maybe_views(before).push(named_c_bytes(texts@)[i as int]));
        assert(named_c_bytes(texts@).take(i + 1) == named_c_bytes(texts@).take(i as int).push(
            named_c_bytes(texts@)[i as int],
        ));
        i = i + 1;
    }
    assert(named_c_bytes(texts@).take(i as int) == named_c_bytes(texts@));
    out
}

/// Whether the text is empty.
pub fn is_empty(text: &str) -> (r: bool)
    ensures
        r == (text@.len() == 0),
{
    text.unicode_len() == 0
}

/// The text that a C program handed over: the bytes up to the first zero byte,
/// with replacements where they are no text. Without bytes there is no text.
pub fn sql_from(sql: Option<&[u8]>) -> (r: String)
    ensures
        is_sql_text(
            match sql {
                Some(bytes) => Some(bytes@),
                None => None,
            },
            r@,
        ),
{
    match sql {
        None => String::new(),
        Some(bytes) => {
            let end = find_zero(bytes);
            lossy_text(vstd::slice::slice_subrange(bytes, 0, end))
        },
    }
}

/// The text that a C program handed over.
pub open spec fn sql_text(sql: Option<Seq<u8>>) -> Seq<char> {
    match sql {
        Some(bytes) => lossy(bytes.subrange(0, first_zero(bytes))),
        None => seq![],
    }
}

/// Whether the text is the one that a C program handed over. Valid UTF-8 arrives
/// unchanged.
pub open spec fn is_sql_text(sql: Option<Seq<u8>>, text: Seq<char>) -> bool {
    &&& text == sql_text(sql)
    &&& sql matches Some(bytes) ==> valid_utf8(bytes.subrange(0, first_zero(bytes))) ==> text
        == decode_utf8(bytes.subrange(0, first_zero(bytes)))
}

} // verus!
