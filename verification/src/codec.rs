//! A stable wire format for kernel definitions: every field is one
//! little-endian 64-bit word, lists and names carry a leading count, and
//! decoding validates every tag and range, so that decoding an encoded
//! definition always gives the definition back.

use vstd::prelude::*;
use vstd::string::StrSliceExecFns;
use crate::ir::{
    Binding, CubeDim, Elem, FloatKind, IntKind, Item, KernelDefinition, KernelDefinitionView,
    Location, Scope, Visibility,
};

verus! {

// ---------------------------------------------------------------------
// Word-level encoding
// ---------------------------------------------------------------------

/// The word of a location tag.
pub open spec fn loc_word(l: Location) -> u64 {
    match l {
        Location::Storage => 0u64,
        Location::Cube => 1u64,
    }
}

/// The word of a visibility tag.
pub open spec fn vis_word(v: Visibility) -> u64 {
    match v {
        Visibility::Read => 0u64,
        Visibility::ReadWrite => 1u64,
    }
}

/// The word of a float kind.
pub open spec fn float_kind_word(k: FloatKind) -> u64 {
    match k {
        FloatKind::F16 => 0u64,
        FloatKind::BF16 => 1u64,
        FloatKind::F32 => 2u64,
        FloatKind::F64 => 3u64,
    }
}

/// The word of an int kind.
pub open spec fn int_kind_word(k: IntKind) -> u64 {
    match k {
        IntKind::I32 => 0u64,
        IntKind::I64 => 1u64,
    }
}

/// The two words of an element type: a tag and a kind.
pub open spec fn elem_words(e: Elem) -> Seq<u64> {
    match e {
        Elem::Float(k) => seq![0u64, float_kind_word(k)],
        Elem::Int(k) => seq![1u64, int_kind_word(k)],
        Elem::UInt => seq![2u64, 0u64],
        Elem::Bool => seq![3u64, 0u64],
    }
}

/// The two words of an optional size: a tag and the value.
pub open spec fn size_words(s: Option<usize>) -> Seq<u64> {
    match s {
        None => seq![0u64, 0u64],
        Some(v) => seq![1u64, v as u64],
    }
}

/// The seven words of one binding.
pub open spec fn wenc_binding(b: Binding) -> Seq<u64> {
    seq![loc_word(b.location), vis_word(b.visibility)] + elem_words(b.item.elem) + seq![
        b.item.vectorization as u64,
    ] + size_words(b.size)
}

/// The words of a list of bindings, without its count.
pub open spec fn wenc_items(s: Seq<Binding>) -> Seq<u64>
    decreases s.len(),
{
    if s.len() == 0 {
        Seq::empty()
    } else {
        wenc_binding(s[0]) + wenc_items(s.drop_first())
    }
}

/// The words of a list of bindings: its count, then the items.
pub open spec fn wenc_bindings(s: Seq<Binding>) -> Seq<u64> {
    seq![s.len() as u64] + wenc_items(s)
}

/// The words of a name: its character count, then one code point each.
pub open spec fn wenc_string(name: Seq<char>) -> Seq<u64> {
    seq![name.len() as u64] + Seq::new(name.len(), |i: int| name[i] as u64)
}

/// The words of a list of named bindings, without its count.
pub open spec fn wenc_named_items(s: Seq<(Seq<char>, Binding)>) -> Seq<u64>
    decreases s.len(),
{
    if s.len() == 0 {
        Seq::empty()
    } else {
        wenc_string(s[0].0) + wenc_binding(s[0].1) + wenc_named_items(s.drop_first())
    }
}

/// The words of a list of named bindings: its count, then the items.
pub open spec fn wenc_named(s: Seq<(Seq<char>, Binding)>) -> Seq<u64> {
    seq![s.len() as u64] + wenc_named_items(s)
}

/// The words of a whole kernel definition: inputs, outputs, named
/// bindings, block dimensions, body.
pub open spec fn wenc_def(v: KernelDefinitionView) -> Seq<u64> {
    wenc_bindings(v.inputs) + wenc_bindings(v.outputs) + wenc_named(v.named) + seq![
        v.cube_dim.x as u64,
        v.cube_dim.y as u64,
        v.cube_dim.z as u64,
        v.body.depth as u64,
    ]
}

// ---------------------------------------------------------------------
// Words as little-endian bytes
// ---------------------------------------------------------------------

/// The eight little-endian bytes of one word.
pub open spec fn le8(v: u64) -> Seq<u8> {
    seq![
        (v & 0xff) as u8,
        ((v >> 8) & 0xff) as u8,
        ((v >> 16) & 0xff) as u8,
        ((v >> 24) & 0xff) as u8,
        ((v >> 32) & 0xff) as u8,
        ((v >> 40) & 0xff) as u8,
        ((v >> 48) & 0xff) as u8,
        ((v >> 56) & 0xff) as u8,
    ]
}

/// The bytes of a word sequence, each word little-endian.
pub open spec fn words_bytes(ws: Seq<u64>) -> Seq<u8>
    decreases ws.len(),
{
    if ws.len() == 0 {
        Seq::empty()
    } else {
        le8(ws[0]) + words_bytes(ws.drop_first())
    }
}

/// The word read from eight little-endian bytes at `pos`.
pub open spec fn u64_at(b: Seq<u8>, pos: int) -> u64 {
    (b[pos] as u64) | ((b[pos + 1] as u64) << 8) | ((b[pos + 2] as u64) << 16) | ((b[pos + 3]
        as u64) << 24) | ((b[pos + 4] as u64) << 32) | ((b[pos + 5] as u64) << 40) | ((b[pos + 6]
        as u64) << 48) | ((b[pos + 7] as u64) << 56)
}

/// The words of a byte sequence whose length is a multiple of eight.
pub open spec fn words_of(b: Seq<u8>) -> Seq<u64> {
    Seq::new((b.len() / 8) as nat, |i: int| u64_at(b, 8 * i))
}

/// A word survives the little-endian byte round trip.
pub proof fn lemma_le8_roundtrip(b: Seq<u8>, pos: int, v: u64)
    requires
        0 <= pos,
        pos + 8 <= b.len(),
        b.subrange(pos, pos + 8) == le8(v),
    ensures
        u64_at(b, pos) == v,
{
    assert forall|i: int| 0 <= i < 8 implies b[pos + i] == le8(v)[i] by {
        assert(b.subrange(pos, pos + 8)[i] == b[pos + i]);
    }
    let b0 = (v & 0xff) as u8;
    let b1 = ((v >> 8) & 0xff) as u8;
    let b2 = ((v >> 16) & 0xff) as u8;
    let b3 = ((v >> 24) & 0xff) as u8;
    let b4 = ((v >> 32) & 0xff) as u8;
    let b5 = ((v >> 40) & 0xff) as u8;
    let b6 = ((v >> 48) & 0xff) as u8;
    let b7 = ((v >> 56) & 0xff) as u8;
    assert((b0 as u64) | ((b1 as u64) << 8) | ((b2 as u64) << 16) | ((b3 as u64) << 24) | ((b4
        as u64) << 32) | ((b5 as u64) << 40) | ((b6 as u64) << 48) | ((b7 as u64) << 56) == v)
        by (bit_vector)
        requires
            b0 == (v & 0xff) as u8,
            b1 == ((v >> 8) & 0xff) as u8,
            b2 == ((v >> 16) & 0xff) as u8,
            b3 == ((v >> 24) & 0xff) as u8,
            b4 == ((v >> 32) & 0xff) as u8,
            b5 == ((v >> 40) & 0xff) as u8,
            b6 == ((v >> 48) & 0xff) as u8,
            b7 == ((v >> 56) & 0xff) as u8,
    ;
}

/// The byte length of a word sequence.
pub proof fn lemma_words_bytes_len(ws: Seq<u64>)
    ensures
        words_bytes(ws).len() == 8 * ws.len(),
    decreases ws.len(),
{
    if ws.len() > 0 {
        lemma_words_bytes_len(ws.drop_first());
    }
}

/// Word bytes concatenate word by word.
pub proof fn lemma_words_bytes_concat(a: Seq<u64>, b: Seq<u64>)
    ensures
        words_bytes(a + b) == words_bytes(a) + words_bytes(b),
    decreases a.len(),
{
    if a.len() == 0 {
        assert(a + b =~= b);
        assert(words_bytes(a) + words_bytes(b) =~= words_bytes(b));
    } else {
        assert((a + b).drop_first() =~= a.drop_first() + b);
        lemma_words_bytes_concat(a.drop_first(), b);
        assert(words_bytes(a + b) =~= words_bytes(a) + words_bytes(b));
    }
}

/// Appending one word appends its eight bytes.
pub proof fn lemma_words_bytes_push(ws: Seq<u64>, w: u64)
    ensures
        words_bytes(ws.push(w)) == words_bytes(ws) + le8(w),
{
    assert(ws.push(w) =~= ws + seq![w]);
    lemma_words_bytes_concat(ws, seq![w]);
    assert(seq![w].drop_first() =~= Seq::<u64>::empty());
    assert(words_bytes(Seq::<u64>::empty()) == Seq::<u8>::empty());
    assert(words_bytes(seq![w]) == le8(w) + words_bytes(seq![w].drop_first()));
    assert(words_bytes(seq![w]) =~= le8(w));
}

/// The byte subrange of one word inside a word sequence's bytes.
pub proof fn lemma_words_bytes_word(ws: Seq<u64>, i: int)
    requires
        0 <= i < ws.len(),
    ensures
        words_bytes(ws).subrange(8 * i, 8 * i + 8) == le8(ws[i]),
    decreases i,
{
    lemma_words_bytes_len(ws);
    lemma_words_bytes_len(ws.drop_first());
    if i == 0 {
        assert(words_bytes(ws).subrange(0, 8) =~= le8(ws[0]));
    } else {
        lemma_words_bytes_word(ws.drop_first(), i - 1);
        assert(words_bytes(ws).subrange(8 * i, 8 * i + 8) =~= words_bytes(
            ws.drop_first(),
        ).subrange(8 * (i - 1), 8 * (i - 1) + 8));
    }
}

/// Bytes of words read back as the same words.
pub proof fn lemma_words_of_bytes(ws: Seq<u64>)
    ensures
        words_of(words_bytes(ws)) == ws,
{
    lemma_words_bytes_len(ws);
    assert forall|i: int| 0 <= i < ws.len() implies words_of(words_bytes(ws))[i] == ws[i] by {
        lemma_words_bytes_word(ws, i);
        lemma_le8_roundtrip(words_bytes(ws), 8 * i, ws[i]);
    }
    assert(words_of(words_bytes(ws)) =~= ws);
}

// ---------------------------------------------------------------------
// Word-level decoding
// ---------------------------------------------------------------------

/// The location of a tag word, if valid.
pub open spec fn sdec_location(w: u64) -> Option<Location> {
    if w == 0 {
        Some(Location::Storage)
    } else if w == 1 {
        Some(Location::Cube)
    } else {
        None
    }
}

/// The visibility of a tag word, if valid.
pub open spec fn sdec_visibility(w: u64) -> Option<Visibility> {
    if w == 0 {
        Some(Visibility::Read)
    } else if w == 1 {
        Some(Visibility::ReadWrite)
    } else {
        None
    }
}

/// The element type of a tag word and a kind word, if valid.
pub open spec fn sdec_elem(tag: u64, kind: u64) -> Option<Elem> {
    if tag == 0 {
        if kind == 0 {
            Some(Elem::Float(FloatKind::F16))
        } else if kind == 1 {
            Some(Elem::Float(FloatKind::BF16))
        } else if kind == 2 {
            Some(Elem::Float(FloatKind::F32))
        } else if kind == 3 {
            Some(Elem::Float(FloatKind::F64))
        } else {
            None
        }
    } else if tag == 1 {
        if kind == 0 {
            Some(Elem::Int(IntKind::I32))
        } else if kind == 1 {
            Some(Elem::Int(IntKind::I64))
        } else {
            None
        }
    } else if tag == 2 {
        if kind == 0 {
            Some(Elem::UInt)
        } else {
            None
        }
    } else if tag == 3 {
        if kind == 0 {
            Some(Elem::Bool)
        } else {
            None
        }
    } else {
        None
    }
}

/// The optional size of a tag word and a value word, if valid.
pub open spec fn sdec_size(tag: u64, value: u64) -> Option<Option<usize>> {
    if tag == 0 {
        if value == 0 {
            Some(None)
        } else {
            None
        }
    } else if tag == 1 {
        if value <= usize::MAX as u64 {
            Some(Some(value as usize))
        } else {
            None
        }
    } else {
        None
    }
}

/// One binding read at word cursor `pos`, with the cursor after it.
pub open spec fn sdec_binding(ws: Seq<u64>, pos: int) -> Option<(Binding, int)> {
    if pos < 0 || pos + 7 > ws.len() {
        None
    } else {
        match sdec_location(ws[pos]) {
            None => None,
            Some(location) => match sdec_visibility(ws[pos + 1]) {
                None => None,
                Some(visibility) => match sdec_elem(ws[pos + 2], ws[pos + 3]) {
                    None => None,
                    Some(elem) => if ws[pos + 4] <= u8::MAX as u64 && ws[pos + 4] >= 1 {
                        match sdec_size(ws[pos + 5], ws[pos + 6]) {
                            None => None,
                            Some(size) => Some(
                                (
                                    Binding {
                                        location,
                                        visibility,
                                        item: crate::ir::Item {
                                            elem,
                                            vectorization: ws[pos + 4] as u8,
                                        },
                                        size,
                                    },
                                    pos + 7,
                                ),
                            ),
                        }
                    } else {
                        None
                    },
                },
            },
        }
    }
}

/// `n` bindings read in sequence from word cursor `pos`.
pub open spec fn sdec_items(ws: Seq<u64>, pos: int, n: int) -> Option<(Seq<Binding>, int)>
    decreases (if n > 0 { n } else { 0 }),
{
    if n <= 0 {
        Some((Seq::empty(), pos))
    } else {
        match sdec_binding(ws, pos) {
            None => None,
            Some((b, p)) => match sdec_items(ws, p, n - 1) {
                None => None,
                Some((s, p2)) => Some((seq![b] + s, p2)),
            },
        }
    }
}

/// A counted list of bindings read from word cursor `pos`.
pub open spec fn sdec_bindings(ws: Seq<u64>, pos: int) -> Option<(Seq<Binding>, int)> {
    if pos < 0 || pos + 1 > ws.len() {
        None
    } else {
        sdec_items(ws, pos + 1, ws[pos] as int)
    }
}

/// Whether a word is a valid unicode scalar value.
pub open spec fn valid_char_word(w: u64) -> bool {
    w < 0xD800 || (0xE000 <= w && w <= 0x10FFFF)
}

/// A counted name read from word cursor `pos`.
pub open spec fn sdec_string(ws: Seq<u64>, pos: int) -> Option<(Seq<char>, int)> {
    if pos < 0 || pos + 1 > ws.len() {
        None
    } else {
        let n = ws[pos] as int;
        if pos + 1 + n > ws.len() {
            None
        } else if exists|i: int| 0 <= i < n && !valid_char_word(#[trigger] ws[pos + 1 + i]) {
            None
        } else {
            Some((Seq::new(n as nat, |i: int| ws[pos + 1 + i] as char), pos + 1 + n))
        }
    }
}

/// `n` named bindings read in sequence from word cursor `pos`.
pub open spec fn sdec_named_items(ws: Seq<u64>, pos: int, n: int) -> Option<
    (Seq<(Seq<char>, Binding)>, int),
>
    decreases (if n > 0 { n } else { 0 }),
{
    if n <= 0 {
        Some((Seq::empty(), pos))
    } else {
        match sdec_string(ws, pos) {
            None => None,
            Some((name, p)) => match sdec_binding(ws, p) {
                None => None,
                Some((b, p2)) => match sdec_named_items(ws, p2, n - 1) {
                    None => None,
                    Some((s, p3)) => Some((seq![(name, b)] + s, p3)),
                },
            },
        }
    }
}

/// A counted list of named bindings read from word cursor `pos`.
pub open spec fn sdec_named(ws: Seq<u64>, pos: int) -> Option<(Seq<(Seq<char>, Binding)>, int)> {
    if pos < 0 || pos + 1 > ws.len() {
        None
    } else {
        sdec_named_items(ws, pos + 1, ws[pos] as int)
    }
}

/// A whole kernel definition read from a word sequence, which must be
/// consumed exactly.
pub open spec fn sdec_def(ws: Seq<u64>) -> Option<KernelDefinitionView> {
    match sdec_bindings(ws, 0) {
        None => None,
        Some((inputs, p1)) => match sdec_bindings(ws, p1) {
            None => None,
            Some((outputs, p2)) => match sdec_named(ws, p2) {
                None => None,
                Some((named, p3)) => if p3 + 4 == ws.len() && ws[p3] <= u32::MAX as u64 && ws[p3
                    + 1] <= u32::MAX as u64 && ws[p3 + 2] <= u32::MAX as u64 && ws[p3 + 3]
                    <= u8::MAX as u64 {
                    Some(
                        KernelDefinitionView {
                            inputs,
                            outputs,
                            named,
                            cube_dim: CubeDim {
                                x: ws[p3] as u32,
                                y: ws[p3 + 1] as u32,
                                z: ws[p3 + 2] as u32,
                            },
                            body: Scope { depth: ws[p3 + 3] as u8 },
                        },
                    )
                } else {
                    None
                },
            },
        },
    }
}

/// What [`decode`] yields on a byte sequence: its words parsed as a
/// kernel definition, or nothing when the length is not a whole number
/// of words or parsing fails.
pub open spec fn spec_decode(b: Seq<u8>) -> Option<KernelDefinitionView> {
    if b.len() % 8 == 0 {
        sdec_def(words_of(b))
    } else {
        None
    }
}

/// What [`encode`] yields: the definition's words as little-endian bytes.
pub open spec fn spec_encode(v: KernelDefinitionView) -> Seq<u8> {
    words_bytes(wenc_def(v))
}

// ---------------------------------------------------------------------
// Round trip at the word level
// ---------------------------------------------------------------------

/// A view whose counts fit the wire's word: true of the view of every
/// kernel definition a program can hold.
pub open spec fn encodable(v: KernelDefinitionView) -> bool {
    &&& v.inputs.len() <= u64::MAX
    &&& v.outputs.len() <= u64::MAX
    &&& v.named.len() <= u64::MAX
    &&& (forall|i: int| 0 <= i < v.named.len() ==> (#[trigger] v.named[i].0).len() <= u64::MAX)
    &&& (forall|i: int| 0 <= i < v.inputs.len() ==> (#[trigger] v.inputs[i]).item.vectorization
        >= 1)
    &&& (forall|i: int| 0 <= i < v.outputs.len() ==> (#[trigger] v.outputs[i]).item.vectorization
        >= 1)
    &&& (forall|i: int| 0 <= i < v.named.len() ==> (#[trigger] v.named[i].1).item.vectorization
        >= 1)
}

/// One encoded binding decodes to itself.
pub proof fn lemma_sdec_binding(ws: Seq<u64>, pos: int, b: Binding)
    requires
        0 <= pos,
        pos + 7 <= ws.len(),
        ws.subrange(pos, pos + 7) == wenc_binding(b),
        b.item.vectorization >= 1,
    ensures
        sdec_binding(ws, pos) == Some((b, pos + 7)),
{
    assert forall|i: int| 0 <= i < 7 implies ws[pos + i] == wenc_binding(b)[i] by {
        assert(ws.subrange(pos, pos + 7)[i] == ws[pos + i]);
    }
    assert(ws[pos + 0] == wenc_binding(b)[0]);
    assert(ws[pos + 1] == wenc_binding(b)[1]);
    assert(ws[pos + 2] == wenc_binding(b)[2]);
    assert(ws[pos + 3] == wenc_binding(b)[3]);
    assert(ws[pos + 4] == wenc_binding(b)[4]);
    assert(ws[pos + 5] == wenc_binding(b)[5]);
    assert(ws[pos + 6] == wenc_binding(b)[6]);
    assert(wenc_binding(b)[0] == loc_word(b.location));
    assert(wenc_binding(b)[1] == vis_word(b.visibility));
    assert(wenc_binding(b)[2] == elem_words(b.item.elem)[0]);
    assert(wenc_binding(b)[3] == elem_words(b.item.elem)[1]);
    assert(wenc_binding(b)[4] == b.item.vectorization as u64);
    assert(wenc_binding(b)[5] == size_words(b.size)[0]);
    assert(wenc_binding(b)[6] == size_words(b.size)[1]);
    assert(sdec_location(loc_word(b.location)) == Some(b.location));
    assert(sdec_visibility(vis_word(b.visibility)) == Some(b.visibility));
    assert(sdec_elem(elem_words(b.item.elem)[0], elem_words(b.item.elem)[1]) == Some(b.item.elem));
    assert(sdec_size(size_words(b.size)[0], size_words(b.size)[1]) == Some(b.size));
    assert(sdec_binding(ws, pos) == Some((b, pos + 7)));
}

/// An encoded run of bindings decodes to itself.
pub proof fn lemma_sdec_items(ws: Seq<u64>, pos: int, s: Seq<Binding>)
    requires
        0 <= pos,
        pos + wenc_items(s).len() <= ws.len(),
        ws.subrange(pos, pos + wenc_items(s).len()) == wenc_items(s),
        forall|i: int| 0 <= i < s.len() ==> (#[trigger] s[i]).item.vectorization >= 1,
    ensures
        sdec_items(ws, pos, s.len() as int) == Some((s, pos + wenc_items(s).len())),
    decreases s.len(),
{
    if s.len() == 0 {
        assert(sdec_items(ws, pos, 0) == Some((Seq::<Binding>::empty(), pos)));
        assert(s =~= Seq::<Binding>::empty());
    } else {
        let first = wenc_binding(s[0]);
        let rest = wenc_items(s.drop_first());
        assert(wenc_items(s) == first + rest);
        assert(first.len() == 7);
        assert(ws.subrange(pos, pos + 7) =~= first) by {
            assert forall|i: int| 0 <= i < 7 implies ws[pos + i] == first[i] by {
                assert(ws.subrange(pos, pos + wenc_items(s).len())[i] == ws[pos + i]);
                assert((first + rest)[i] == first[i]);
            }
        }
        lemma_sdec_binding(ws, pos, s[0]);
        assert(ws.subrange(pos + 7, pos + 7 + rest.len()) =~= rest) by {
            assert forall|i: int| 0 <= i < rest.len() implies ws[pos + 7 + i] == rest[i] by {
                assert(ws.subrange(pos, pos + wenc_items(s).len())[7 + i] == ws[pos + 7 + i]);
                assert((first + rest)[7 + i] == rest[i]);
            }
        }
        lemma_sdec_items(ws, pos + 7, s.drop_first());
        assert(seq![s[0]] + s.drop_first() =~= s);
    }
}

/// An encoded counted list of bindings decodes to itself.
pub proof fn lemma_sdec_bindings(ws: Seq<u64>, pos: int, s: Seq<Binding>)
    requires
        0 <= pos,
        s.len() <= u64::MAX,
        pos + wenc_bindings(s).len() <= ws.len(),
        ws.subrange(pos, pos + wenc_bindings(s).len()) == wenc_bindings(s),
        forall|i: int| 0 <= i < s.len() ==> (#[trigger] s[i]).item.vectorization >= 1,
    ensures
        sdec_bindings(ws, pos) == Some((s, pos + wenc_bindings(s).len())),
{
    assert(ws[pos] == wenc_bindings(s)[0]) by {
        assert(ws.subrange(pos, pos + wenc_bindings(s).len())[0] == ws[pos]);
    }
    assert(ws[pos] == s.len() as u64);
    assert(ws.subrange(pos + 1, pos + 1 + wenc_items(s).len()) =~= wenc_items(s)) by {
        assert forall|i: int| 0 <= i < wenc_items(s).len() implies ws[pos + 1 + i] == wenc_items(
            s,
        )[i] by {
            assert(ws.subrange(pos, pos + wenc_bindings(s).len())[1 + i] == ws[pos + 1 + i]);
        }
    }
    lemma_sdec_items(ws, pos + 1, s);
}

/// An encoded name decodes to itself.
pub proof fn lemma_sdec_string(ws: Seq<u64>, pos: int, name: Seq<char>)
    requires
        0 <= pos,
        name.len() <= u64::MAX,
        pos + wenc_string(name).len() <= ws.len(),
        ws.subrange(pos, pos + wenc_string(name).len()) == wenc_string(name),
    ensures
        sdec_string(ws, pos) == Some((name, pos + wenc_string(name).len())),
{
    let n = name.len() as int;
    assert(ws[pos + 0] == wenc_string(name)[0]) by {
        assert(ws.subrange(pos, pos + wenc_string(name).len())[0] == ws[pos + 0]);
    }
    assert(ws[pos] == name.len() as u64);
    assert forall|i: int| 0 <= i < n implies valid_char_word(#[trigger] ws[pos + 1 + i])
        && ws[pos + 1 + i] as char == name[i] by {
        assert(ws.subrange(pos, pos + wenc_string(name).len())[1 + i] == ws[pos + 1 + i]);
        assert(wenc_string(name)[1 + i] == name[i] as u64);
        assert(ws[pos + 1 + i] == name[i] as u64);
        vstd::utf8::char_is_scalar(name[i]);
        vstd::utf8::char_u32_cast(name[i], name[i] as u32);
        assert(name[i] as u64 == (name[i] as u32) as u64);
    }
    assert(Seq::new(n as nat, |i: int| ws[pos + 1 + i] as char) =~= name);
}

/// An encoded run of named bindings decodes to itself.
pub proof fn lemma_sdec_named_items(ws: Seq<u64>, pos: int, s: Seq<(Seq<char>, Binding)>)
    requires
        0 <= pos,
        pos + wenc_named_items(s).len() <= ws.len(),
        ws.subrange(pos, pos + wenc_named_items(s).len()) == wenc_named_items(s),
        forall|i: int| 0 <= i < s.len() ==> (#[trigger] s[i].0).len() <= u64::MAX,
        forall|i: int| 0 <= i < s.len() ==> (#[trigger] s[i].1).item.vectorization >= 1,
    ensures
        sdec_named_items(ws, pos, s.len() as int) == Some((s, pos + wenc_named_items(s).len())),
    decreases s.len(),
{
    if s.len() == 0 {
        assert(s =~= Seq::<(Seq<char>, Binding)>::empty());
    } else {
        let sname = wenc_string(s[0].0);
        let sbind = wenc_binding(s[0].1);
        let rest = wenc_named_items(s.drop_first());
        assert(wenc_named_items(s) == sname + sbind + rest);
        assert(ws.subrange(pos, pos + sname.len()) =~= sname) by {
            assert forall|i: int| 0 <= i < sname.len() implies ws[pos + i] == sname[i] by {
                assert(ws.subrange(pos, pos + wenc_named_items(s).len())[i] == ws[pos + i]);
                assert((sname + sbind + rest)[i] == sname[i]);
            }
        }
        lemma_sdec_string(ws, pos, s[0].0);
        let p = pos + sname.len();
        assert(ws.subrange(p, p + 7) =~= sbind) by {
            assert forall|i: int| 0 <= i < 7 implies ws[p + i] == sbind[i] by {
                assert(ws.subrange(pos, pos + wenc_named_items(s).len())[sname.len() + i] == ws[p
                    + i]);
                assert((sname + sbind + rest)[sname.len() + i] == sbind[i]);
            }
        }
        lemma_sdec_binding(ws, p, s[0].1);
        let p2 = p + 7;
        assert(ws.subrange(p2, p2 + rest.len()) =~= rest) by {
            assert forall|i: int| 0 <= i < rest.len() implies ws[p2 + i] == rest[i] by {
                assert(ws.subrange(pos, pos + wenc_named_items(s).len())[sname.len() + 7 + i]
                    == ws[p2 + i]);
                assert((sname + sbind + rest)[sname.len() + 7 + i] == rest[i]);
            }
        }
        lemma_sdec_named_items(ws, p2, s.drop_first());
        assert(seq![(s[0].0, s[0].1)] + s.drop_first() =~= s);
    }
}

/// An encoded counted list of named bindings decodes to itself.
pub proof fn lemma_sdec_named(ws: Seq<u64>, pos: int, s: Seq<(Seq<char>, Binding)>)
    requires
        0 <= pos,
        s.len() <= u64::MAX,
        pos + wenc_named(s).len() <= ws.len(),
        ws.subrange(pos, pos + wenc_named(s).len()) == wenc_named(s),
        forall|i: int| 0 <= i < s.len() ==> (#[trigger] s[i].0).len() <= u64::MAX,
        forall|i: int| 0 <= i < s.len() ==> (#[trigger] s[i].1).item.vectorization >= 1,
    ensures
        sdec_named(ws, pos) == Some((s, pos + wenc_named(s).len())),
{
    assert(ws[pos] == wenc_named(s)[0]) by {
        assert(ws.subrange(pos, pos + wenc_named(s).len())[0] == ws[pos]);
    }
    assert(ws[pos] == s.len() as u64);
    assert(ws.subrange(pos + 1, pos + 1 + wenc_named_items(s).len()) =~= wenc_named_items(s)) by {
        assert forall|i: int| 0 <= i < wenc_named_items(s).len() implies ws[pos + 1 + i]
            == wenc_named_items(s)[i] by {
            assert(ws.subrange(pos, pos + wenc_named(s).len())[1 + i] == ws[pos + 1 + i]);
        }
    }
    lemma_sdec_named_items(ws, pos + 1, s);
}

/// An encoded kernel definition decodes to itself: the round trip law at
/// the level of the wire's words and the definition's mathematical value.
#[verifier::rlimit(100)]
pub proof fn lemma_decode_encode(v: KernelDefinitionView)
    requires
        encodable(v),
    ensures
        spec_decode(spec_encode(v)) == Some(v),
{
    let ws = wenc_def(v);
    let a = wenc_bindings(v.inputs);
    let b = wenc_bindings(v.outputs);
    let c = wenc_named(v.named);
    let d = seq![
        v.cube_dim.x as u64,
        v.cube_dim.y as u64,
        v.cube_dim.z as u64,
        v.body.depth as u64,
    ];
    lemma_words_of_bytes(ws);
    lemma_words_bytes_len(ws);
    assert(words_bytes(ws).len() % 8 == 0);
    assert(ws == a + b + c + d);
    let p1 = a.len() as int;
    let p2 = p1 + b.len() as int;
    let p3 = p2 + c.len() as int;

    assert(ws.subrange(0, p1) =~= a) by {
        assert forall|i: int| 0 <= i < p1 implies ws[i] == a[i] by {
            assert((a + b + c + d)[i] == a[i]);
        }
    }
    lemma_sdec_bindings(ws, 0, v.inputs);
    assert(ws.subrange(p1, p2) =~= b) by {
        assert forall|i: int| 0 <= i < b.len() implies ws[p1 + i] == b[i] by {
            assert((a + b + c + d)[p1 + i] == b[i]);
        }
    }
    lemma_sdec_bindings(ws, p1, v.outputs);
    assert(ws.subrange(p2, p3) =~= c) by {
        assert forall|i: int| 0 <= i < c.len() implies ws[p2 + i] == c[i] by {
            assert((a + b + c + d)[p2 + i] == c[i]);
        }
    }
    lemma_sdec_named(ws, p2, v.named);
    assert(ws[p3] == v.cube_dim.x as u64) by {
        assert((a + b + c + d)[p3] == d[0]);
    }
    assert(ws[p3 + 1] == v.cube_dim.y as u64) by {
        assert((a + b + c + d)[p3 + 1] == d[1]);
    }
    assert(ws[p3 + 2] == v.cube_dim.z as u64) by {
        assert((a + b + c + d)[p3 + 2] == d[2]);
    }
    assert(ws[p3 + 3] == v.body.depth as u64) by {
        assert((a + b + c + d)[p3 + 3] == d[3]);
    }
    assert(p3 + 4 == ws.len());
    assert(sdec_def(ws) matches Some(dv) && dv == v) by {
        assert(sdec_def(ws) is Some);
        let dv = sdec_def(ws)->Some_0;
        assert(dv.inputs == v.inputs && dv.outputs == v.outputs && dv.named == v.named
            && dv.cube_dim == v.cube_dim && dv.body == v.body);
    }
}

// ---------------------------------------------------------------------
// Executable encoding
// ---------------------------------------------------------------------

/// A definition whose items all carry a positive vectorization, as the
/// item invariant demands; only such definitions are encoded.
pub open spec fn items_positive(v: KernelDefinitionView) -> bool {
    &&& (forall|i: int| 0 <= i < v.inputs.len() ==> (#[trigger] v.inputs[i]).item.vectorization
        >= 1)
    &&& (forall|i: int| 0 <= i < v.outputs.len() ==> (#[trigger] v.outputs[i]).item.vectorization
        >= 1)
    &&& (forall|i: int| 0 <= i < v.named.len() ==> (#[trigger] v.named[i].1).item.vectorization
        >= 1)
}

/// Append the eight little-endian bytes of one word.
fn push_word(buf: &mut Vec<u8>, v: u64)
    ensures
        final(buf)@ == old(buf)@ + le8(v),
{
    buf.push((v & 0xff) as u8);
    buf.push(((v >> 8) & 0xff) as u8);
    buf.push(((v >> 16) & 0xff) as u8);
    buf.push(((v >> 24) & 0xff) as u8);
    buf.push(((v >> 32) & 0xff) as u8);
    buf.push(((v >> 40) & 0xff) as u8);
    buf.push(((v >> 48) & 0xff) as u8);
    buf.push(((v >> 56) & 0xff) as u8);
    proof {
        assert(buf@ =~= old(buf)@ + le8(v));
    }
}

/// Append the seven words of one binding.
#[verifier::rlimit(100)]
fn encode_binding(b: &Binding, buf: &mut Vec<u8>)
    ensures
        final(buf)@ == old(buf)@ + words_bytes(wenc_binding(*b)),
{
    let w0: u64 = match b.location {
        Location::Storage => 0,
        Location::Cube => 1,
    };
    let w1: u64 = match b.visibility {
        Visibility::Read => 0,
        Visibility::ReadWrite => 1,
    };
    let (w2, w3): (u64, u64) = match b.item.elem {
        Elem::Float(FloatKind::F16) => (0, 0),
        Elem::Float(FloatKind::BF16) => (0, 1),
        Elem::Float(FloatKind::F32) => (0, 2),
        Elem::Float(FloatKind::F64) => (0, 3),
        Elem::Int(IntKind::I32) => (1, 0),
        Elem::Int(IntKind::I64) => (1, 1),
        Elem::UInt => (2, 0),
        Elem::Bool => (3, 0),
    };
    let w4: u64 = b.item.vectorization as u64;
    let (w5, w6): (u64, u64) = match b.size {
        None => (0, 0),
        Some(s) => (1, s as u64),
    };
    let ghost mut gws: Seq<u64> = Seq::empty();
    proof {
        assert(buf@ =~= old(buf)@ + words_bytes(gws));
    }
    push_word(buf, w0);
    proof {
        lemma_words_bytes_push(gws, w0);
        gws = gws.push(w0);
    }
    push_word(buf, w1);
    proof {
        lemma_words_bytes_push(gws, w1);
        gws = gws.push(w1);
    }
    push_word(buf, w2);
    proof {
        lemma_words_bytes_push(gws, w2);
        gws = gws.push(w2);
    }
    push_word(buf, w3);
    proof {
        lemma_words_bytes_push(gws, w3);
        gws = gws.push(w3);
    }
    push_word(buf, w4);
    proof {
        lemma_words_bytes_push(gws, w4);
        gws = gws.push(w4);
    }
    push_word(buf, w5);
    proof {
        lemma_words_bytes_push(gws, w5);
        gws = gws.push(w5);
    }
    push_word(buf, w6);
    proof {
        lemma_words_bytes_push(gws, w6);
        gws = gws.push(w6);
        assert(gws =~= wenc_binding(*b));
        assert(buf@ == old(buf)@ + words_bytes(gws));
    }
}

/// Appending one more item extends the encoding of a prefix run.
proof fn lemma_wenc_items_push(s: Seq<Binding>, b: Binding)
    ensures
        wenc_items(s.push(b)) == wenc_items(s) + wenc_binding(b),
    decreases s.len(),
{
    if s.len() == 0 {
        assert(s.push(b)[0] == b);
        assert(s.push(b).drop_first() =~= Seq::<Binding>::empty());
        assert(wenc_items(s.push(b)) == wenc_binding(b) + wenc_items(s.push(b).drop_first()));
        assert(wenc_items(s.push(b).drop_first()) == Seq::<u64>::empty());
        assert(wenc_items(s) == Seq::<u64>::empty());
        assert(wenc_items(s.push(b)) =~= wenc_items(s) + wenc_binding(b));
    } else {
        assert(s.push(b)[0] == s[0]);
        assert(s.push(b).drop_first() =~= s.drop_first().push(b));
        lemma_wenc_items_push(s.drop_first(), b);
        assert(wenc_items(s.push(b)) == wenc_binding(s[0]) + wenc_items(s.drop_first().push(b)));
        assert(wenc_items(s.push(b)) =~= wenc_items(s) + wenc_binding(b));
    }
}

/// Appending one more named item extends the encoding of a prefix run.
proof fn lemma_wenc_named_items_push(s: Seq<(Seq<char>, Binding)>, nb: (Seq<char>, Binding))
    ensures
        wenc_named_items(s.push(nb)) == wenc_named_items(s) + wenc_string(nb.0) + wenc_binding(
            nb.1,
        ),
    decreases s.len(),
{
    if s.len() == 0 {
        assert(s.push(nb)[0] == nb);
        assert(s.push(nb).drop_first() =~= Seq::<(Seq<char>, Binding)>::empty());
        assert(wenc_named_items(s.push(nb)) == wenc_string(nb.0) + wenc_binding(nb.1)
            + wenc_named_items(s.push(nb).drop_first()));
        assert(wenc_named_items(s.push(nb).drop_first()) == Seq::<u64>::empty());
        assert(wenc_named_items(s) == Seq::<u64>::empty());
        assert(wenc_named_items(s.push(nb)) =~= wenc_named_items(s) + wenc_string(nb.0)
            + wenc_binding(nb.1));
    } else {
        assert(s.push(nb)[0] == s[0]);
        assert(s.push(nb).drop_first() =~= s.drop_first().push(nb));
        lemma_wenc_named_items_push(s.drop_first(), nb);
        assert(wenc_named_items(s.push(nb)) == wenc_string(s[0].0) + wenc_binding(s[0].1)
            + wenc_named_items(s.drop_first().push(nb)));
        assert(wenc_named_items(s.push(nb)) =~= wenc_named_items(s) + wenc_string(nb.0)
            + wenc_binding(nb.1));
    }
}

/// Append a counted list of bindings.
fn encode_bindings(v: &Vec<Binding>, buf: &mut Vec<u8>)
    ensures
        final(buf)@ == old(buf)@ + words_bytes(wenc_bindings(v@)),
        v@.len() <= u64::MAX,
{
    let n = v.len();
    push_word(buf, n as u64);
    let mut i: usize = 0;
    proof {
        assert(v@.take(0) =~= Seq::<Binding>::empty());
        assert(words_bytes(seq![n as u64] + wenc_items(v@.take(0))) =~= le8(n as u64)) by {
            lemma_words_bytes_push(Seq::<u64>::empty(), n as u64);
            assert(Seq::<u64>::empty().push(n as u64) =~= seq![n as u64] + wenc_items(
                v@.take(0),
            ));
        }
    }
    while i < n
        invariant
            n == v@.len(),
            i <= n,
            buf@ == old(buf)@ + words_bytes(seq![n as u64] + wenc_items(v@.take(i as int))),
        decreases n - i,
    {
        encode_binding(&v[i], buf);
        proof {
            lemma_wenc_items_push(v@.take(i as int), v@[i as int]);
            assert(v@.take(i + 1) =~= v@.take(i as int).push(v@[i as int]));
            lemma_words_bytes_concat(
                seq![n as u64] + wenc_items(v@.take(i as int)),
                wenc_binding(v@[i as int]),
            );
            assert((seq![n as u64] + wenc_items(v@.take(i as int))) + wenc_binding(v@[i as int])
                =~= seq![n as u64] + wenc_items(v@.take(i + 1)));
        }
        i = i + 1;
    }
    proof {
        assert(v@.take(n as int) =~= v@);
    }
}

/// Append a counted name, one code point per word.
fn encode_string(name: &String, buf: &mut Vec<u8>)
    ensures
        final(buf)@ == old(buf)@ + words_bytes(wenc_string(name@)),
        name@.len() <= u64::MAX,
{
    let n = name.as_str().unicode_len();
    push_word(buf, n as u64);
    let ghost mut gws: Seq<u64> = seq![n as u64];
    proof {
        lemma_words_bytes_push(Seq::<u64>::empty(), n as u64);
        assert(Seq::<u64>::empty().push(n as u64) =~= gws);
    }
    let mut i: usize = 0;
    while i < n
        invariant
            n == name@.len(),
            i <= n,
            gws =~= seq![n as u64] + Seq::new(i as nat, |q: int| name@[q] as u64),
            buf@ == old(buf)@ + words_bytes(gws),
        decreases n - i,
    {
        let c = name.as_str().get_char(i);
        push_word(buf, c as u64);
        proof {
            lemma_words_bytes_push(gws, c as u64);
            gws = gws.push(c as u64);
            assert(gws =~= seq![n as u64] + Seq::new((i + 1) as nat, |q: int| name@[q] as u64));
        }
        i = i + 1;
    }
    proof {
        assert(gws =~= wenc_string(name@));
    }
}

/// Append a counted list of named bindings.
fn encode_named(v: &Vec<(String, Binding)>, buf: &mut Vec<u8>)
    ensures
        final(buf)@ == old(buf)@ + words_bytes(
            wenc_named(v@.map_values(|nb: (String, Binding)| (nb.0@, nb.1))),
        ),
        v@.len() <= u64::MAX,
        forall|i: int| 0 <= i < v@.len() ==> (#[trigger] v@[i].0@).len() <= u64::MAX,
{
    let ghost mapped = v@.map_values(|nb: (String, Binding)| (nb.0@, nb.1));
    let n = v.len();
    push_word(buf, n as u64);
    let mut i: usize = 0;
    proof {
        assert(mapped.take(0) =~= Seq::<(Seq<char>, Binding)>::empty());
        assert(words_bytes(seq![n as u64] + wenc_named_items(mapped.take(0))) =~= le8(n as u64))
            by {
            lemma_words_bytes_push(Seq::<u64>::empty(), n as u64);
            assert(Seq::<u64>::empty().push(n as u64) =~= seq![n as u64] + wenc_named_items(
                mapped.take(0),
            ));
        }
    }
    while i < n
        invariant
            n == v@.len(),
            mapped == v@.map_values(|nb: (String, Binding)| (nb.0@, nb.1)),
            i <= n,
            buf@ == old(buf)@ + words_bytes(
                seq![n as u64] + wenc_named_items(mapped.take(i as int)),
            ),
            forall|q: int| 0 <= q < i ==> (#[trigger] v@[q].0@).len() <= u64::MAX,
        decreases n - i,
    {
        encode_string(&v[i].0, buf);
        encode_binding(&v[i].1, buf);
        proof {
            lemma_wenc_named_items_push(mapped.take(i as int), mapped[i as int]);
            assert(mapped.take(i + 1) =~= mapped.take(i as int).push(mapped[i as int]));
            lemma_words_bytes_concat(
                seq![n as u64] + wenc_named_items(mapped.take(i as int)),
                wenc_string(mapped[i as int].0),
            );
            lemma_words_bytes_concat(
                (seq![n as u64] + wenc_named_items(mapped.take(i as int))) + wenc_string(
                    mapped[i as int].0,
                ),
                wenc_binding(mapped[i as int].1),
            );
            assert(mapped[i as int].0 == v@[i as int].0@);
            assert(mapped[i as int].1 == v@[i as int].1);
            assert(((seq![n as u64] + wenc_named_items(mapped.take(i as int))) + wenc_string(
                mapped[i as int].0,
            )) + wenc_binding(mapped[i as int].1) =~= seq![n as u64] + wenc_named_items(
                mapped.take(i + 1),
            ));
        }
        i = i + 1;
    }
    proof {
        assert(mapped.take(n as int) =~= mapped);
    }
}

/// Encode a kernel definition onto the wire. What comes back decodes to
/// the same definition.
pub fn encode(def: &KernelDefinition) -> (r: Vec<u8>)
    requires
        items_positive(def@),
    ensures
        r@ == spec_encode(def@),
        spec_decode(r@) == Some(def@),
{
    let mut buf: Vec<u8> = Vec::new();
    encode_bindings(&def.inputs, &mut buf);
    encode_bindings(&def.outputs, &mut buf);
    encode_named(&def.named, &mut buf);
    let ghost head = wenc_bindings(def@.inputs) + wenc_bindings(def@.outputs) + wenc_named(
        def@.named,
    );
    proof {
        lemma_words_bytes_concat(wenc_bindings(def@.inputs), wenc_bindings(def@.outputs));
        lemma_words_bytes_concat(
            wenc_bindings(def@.inputs) + wenc_bindings(def@.outputs),
            wenc_named(def@.named),
        );
        assert(buf@ =~= words_bytes(head));
    }
    let ghost mut gws: Seq<u64> = head;
    push_word(&mut buf, def.cube_dim.x as u64);
    proof {
        lemma_words_bytes_push(gws, def.cube_dim.x as u64);
        gws = gws.push(def.cube_dim.x as u64);
    }
    push_word(&mut buf, def.cube_dim.y as u64);
    proof {
        lemma_words_bytes_push(gws, def.cube_dim.y as u64);
        gws = gws.push(def.cube_dim.y as u64);
    }
    push_word(&mut buf, def.cube_dim.z as u64);
    proof {
        lemma_words_bytes_push(gws, def.cube_dim.z as u64);
        gws = gws.push(def.cube_dim.z as u64);
    }
    push_word(&mut buf, def.body.depth as u64);
    proof {
        lemma_words_bytes_push(gws, def.body.depth as u64);
        gws = gws.push(def.body.depth as u64);
        assert(gws =~= wenc_def(def@));
        assert(buf@ == spec_encode(def@));
        lemma_decode_encode(def@);
    }
    buf
}

// ---------------------------------------------------------------------
// Executable decoding
// ---------------------------------------------------------------------

/// Relies on char::from_u32: yields the character of a code point for
/// every unicode scalar value, and nothing for a surrogate or a value
/// above the maximum.
#[verifier::external_body]
fn char_from_u32(v: u32) -> (r: Option<char>)
    ensures
        r is None <==> (0xD800 <= v < 0xE000 || v > 0x10FFFF),
        r matches Some(c) ==> c == v as char && c as u32 == v,
{
    char::from_u32(v)
}

/// Relies on String::push: appends exactly the given character.
#[verifier::external_body]
fn string_push(s: &mut String, c: char)
    ensures
        final(s)@ == old(s)@.push(c),
{
    s.push(c);
}

/// Read the word at word index `wpos`.
fn read_word(buf: &Vec<u8>, wpos: usize) -> (r: u64)
    requires
        buf@.len() % 8 == 0,
        8 * wpos + 8 <= buf@.len(),
    ensures
        r == words_of(buf@)[wpos as int],
{
    let len = buf.len();
    assert(8 * wpos + 8 <= len);
    let base = 8 * wpos;
    (buf[base] as u64) | ((buf[base + 1] as u64) << 8u64) | ((buf[base + 2] as u64) << 16u64) | ((
    buf[base + 3] as u64) << 24u64) | ((buf[base + 4] as u64) << 32u64) | ((buf[base + 5] as u64)
        << 40u64) | ((buf[base + 6] as u64) << 48u64) | ((buf[base + 7] as u64) << 56u64)
}

/// Read one binding at word cursor `wpos`.
fn dec_binding(buf: &Vec<u8>, wpos: usize) -> (r: Option<(Binding, usize)>)
    requires
        buf@.len() % 8 == 0,
        wpos <= buf@.len() / 8,
    ensures
        r matches Some(bp) ==> sdec_binding(words_of(buf@), wpos as int) == Some(
            (bp.0, bp.1 as int),
        ) && bp.1 <= buf@.len() / 8,
        r is None ==> sdec_binding(words_of(buf@), wpos as int) is None,
{
    let wlen = buf.len() / 8;
    if wlen - wpos < 7 {
        return None;
    }
    let w0 = read_word(buf, wpos);
    let w1 = read_word(buf, wpos + 1);
    let w2 = read_word(buf, wpos + 2);
    let w3 = read_word(buf, wpos + 3);
    let w4 = read_word(buf, wpos + 4);
    let w5 = read_word(buf, wpos + 5);
    let w6 = read_word(buf, wpos + 6);
    let location = if w0 == 0 {
        Location::Storage
    } else if w0 == 1 {
        Location::Cube
    } else {
        return None;
    };
    let visibility = if w1 == 0 {
        Visibility::Read
    } else if w1 == 1 {
        Visibility::ReadWrite
    } else {
        return None;
    };
    let elem = if w2 == 0 {
        if w3 == 0 {
            Elem::Float(FloatKind::F16)
        } else if w3 == 1 {
            Elem::Float(FloatKind::BF16)
        } else if w3 == 2 {
            Elem::Float(FloatKind::F32)
        } else if w3 == 3 {
            Elem::Float(FloatKind::F64)
        } else {
            return None;
        }
    } else if w2 == 1 {
        if w3 == 0 {
            Elem::Int(IntKind::I32)
        } else if w3 == 1 {
            Elem::Int(IntKind::I64)
        } else {
            return None;
        }
    } else if w2 == 2 {
        if w3 == 0 {
            Elem::UInt
        } else {
            return None;
        }
    } else if w2 == 3 {
        if w3 == 0 {
            Elem::Bool
        } else {
            return None;
        }
    } else {
        return None;
    };
    if !(w4 <= u8::MAX as u64 && w4 >= 1) {
        return None;
    }
    let size: Option<usize> = if w5 == 0 {
        if w6 == 0 {
            None
        } else {
            return None;
        }
    } else if w5 == 1 {
        if w6 <= usize::MAX as u64 {
            Some(w6 as usize)
        } else {
            return None;
        }
    } else {
        return None;
    };
    Some(
        (
            Binding { location, visibility, item: Item { elem, vectorization: w4 as u8 }, size },
            wpos + 7,
        ),
    )
}

/// Read a counted list of bindings at word cursor `wpos`.
fn dec_bindings(buf: &Vec<u8>, wpos: usize) -> (r: Option<(Vec<Binding>, usize)>)
    requires
        buf@.len() % 8 == 0,
        wpos <= buf@.len() / 8,
    ensures
        r matches Some(bp) ==> sdec_bindings(words_of(buf@), wpos as int) == Some(
            (bp.0@, bp.1 as int),
        ) && bp.1 <= buf@.len() / 8,
        r is None ==> sdec_bindings(words_of(buf@), wpos as int) is None,
{
    let ghost ws = words_of(buf@);
    let wlen = buf.len() / 8;
    if wpos >= wlen {
        return None;
    }
    let n = read_word(buf, wpos);
    let mut out: Vec<Binding> = Vec::new();
    let mut cursor: usize = wpos + 1;
    let mut i: u64 = 0;
    while i < n
        invariant
            buf@.len() % 8 == 0,
            ws == words_of(buf@),
            wpos < buf@.len() / 8,
            n == ws[wpos as int],
            i <= n,
            cursor <= buf@.len() / 8,
            sdec_items(ws, wpos + 1, n as int) == match sdec_items(
                ws,
                cursor as int,
                n - i,
            ) {
                Option::None => Option::<(Seq<Binding>, int)>::None,
                Option::Some((s, p)) => Option::Some((out@ + s, p)),
            },
        decreases n - i,
    {
        match dec_binding(buf, cursor) {
            None => {
                proof {
                    assert(sdec_items(ws, cursor as int, n - i) is None);
                }
                return None;
            },
            Some((b, p)) => {
                proof {
                    assert(sdec_items(ws, cursor as int, n - i) matches Some((s, q)) ==> (
                    sdec_items(ws, p as int, n - i - 1) matches Some((s2, q2)) && s == seq![b] + s2
                        && q == q2));
                    assert forall|s2: Seq<Binding>|
                        out@ + (seq![b] + s2) =~= (out@ + seq![b]) + s2 by {}
                    assert(out@.push(b) =~= out@ + seq![b]);
                }
                out.push(b);
                cursor = p;
            },
        }
        i = i + 1;
    }
    proof {
        assert(sdec_items(ws, cursor as int, 0int) == Some((Seq::<Binding>::empty(), cursor as int)));
        assert(out@ + Seq::<Binding>::empty() =~= out@);
    }
    Some((out, cursor))
}

/// Read a counted name at word cursor `wpos`.
fn dec_string(buf: &Vec<u8>, wpos: usize) -> (r: Option<(String, usize)>)
    requires
        buf@.len() % 8 == 0,
        wpos <= buf@.len() / 8,
    ensures
        r matches Some(sp) ==> (sdec_string(words_of(buf@), wpos as int) matches Some(t) && t.0
            == sp.0@ && t.1 == sp.1 as int && sp.1 <= buf@.len() / 8),
        r is None ==> sdec_string(words_of(buf@), wpos as int) is None,
{
    let ghost ws = words_of(buf@);
    let wlen = buf.len() / 8;
    if wpos >= wlen {
        return None;
    }
    let n = read_word(buf, wpos);
    if n > (wlen - (wpos + 1)) as u64 {
        return None;
    }
    let n_usize = n as usize;
    let mut s = String::new();
    let mut i: usize = 0;
    while i < n_usize
        invariant
            buf@.len() % 8 == 0,
            ws == words_of(buf@),
            i <= n_usize,
            n_usize == n,
            n == ws[wpos as int],
            wlen == buf@.len() / 8,
            wpos + 1 + n_usize <= wlen,
            wpos < wlen,
            s@ == Seq::new(i as nat, |q: int| ws[wpos + 1 + q] as char),
            forall|q: int| 0 <= q < i ==> valid_char_word(#[trigger] ws[wpos + 1 + q]),
        decreases n_usize - i,
    {
        assert(8 * (wpos + 1 + i) + 8 <= 8 * wlen);
        let w = read_word(buf, wpos + 1 + i);
        if w >= 0xD800 && (w < 0xE000 || w > 0x10FFFF) {
            proof {
                assert(!valid_char_word(ws[wpos + 1 + i]));
            }
            return None;
        }
        match char_from_u32(w as u32) {
            Some(c) => {
                string_push(&mut s, c);
                proof {
                    assert(w as u32 == w);
                    assert(c == ws[wpos + 1 + i] as char);
                    assert(s@ =~= Seq::new((i + 1) as nat, |q: int| ws[wpos + 1 + q] as char));
                }
            },
            None => {
                proof {
                    assert(false);
                }
                return None;
            },
        }
        i = i + 1;
    }
    proof {
        assert(sdec_string(ws, wpos as int) matches Some(t) && t.0 == s@ && t.1 == wpos + 1
            + n_usize);
    }
    Some((s, wpos + 1 + n_usize))
}

/// Read a counted list of named bindings at word cursor `wpos`.
fn dec_named(buf: &Vec<u8>, wpos: usize) -> (r: Option<(Vec<(String, Binding)>, usize)>)
    requires
        buf@.len() % 8 == 0,
        wpos <= buf@.len() / 8,
    ensures
        r matches Some(bp) ==> sdec_named(words_of(buf@), wpos as int) == Some(
            (bp.0@.map_values(|nb: (String, Binding)| (nb.0@, nb.1)), bp.1 as int),
        ) && bp.1 <= buf@.len() / 8,
        r is None ==> sdec_named(words_of(buf@), wpos as int) is None,
{
    let ghost ws = words_of(buf@);
    let wlen = buf.len() / 8;
    if wpos >= wlen {
        return None;
    }
    let n = read_word(buf, wpos);
    let mut out: Vec<(String, Binding)> = Vec::new();
    let mut cursor: usize = wpos + 1;
    let mut i: u64 = 0;
    while i < n
        invariant
            buf@.len() % 8 == 0,
            ws == words_of(buf@),
            wpos < buf@.len() / 8,
            n == ws[wpos as int],
            i <= n,
            cursor <= buf@.len() / 8,
            sdec_named_items(ws, wpos + 1, n as int) == match sdec_named_items(
                ws,
                cursor as int,
                n - i,
            ) {
                Option::None => Option::<(Seq<(Seq<char>, Binding)>, int)>::None,
                Option::Some((s, p)) => Option::Some(
                    (out@.map_values(|nb: (String, Binding)| (nb.0@, nb.1)) + s, p),
                ),
            },
        decreases n - i,
    {
        let ghost mapped = out@.map_values(|nb: (String, Binding)| (nb.0@, nb.1));
        let ghost c0 = cursor as int;
        let name = match dec_string(buf, cursor) {
            None => {
                proof {
                    assert(sdec_named_items(ws, c0, n - i) is None);
                }
                return None;
            },
            Some((name, p)) => {
                cursor = p;
                name
            },
        };
        match dec_binding(buf, cursor) {
            None => {
                proof {
                    assert(sdec_named_items(ws, c0, n - i) is None);
                }
                return None;
            },
            Some((b, p)) => {
                proof {
                    assert forall|s2: Seq<(Seq<char>, Binding)>|
                        mapped + (seq![(name@, b)] + s2) =~= (mapped + seq![(name@, b)]) + s2 by {}
                    assert(out@.push((name, b)).map_values(
                        |nb: (String, Binding)| (nb.0@, nb.1),
                    ) =~= mapped + seq![(name@, b)]);
                }
                out.push((name, b));
                cursor = p;
            },
        }
        i = i + 1;
    }
    proof {
        assert(sdec_named_items(ws, cursor as int, 0int) == Some(
            (Seq::<(Seq<char>, Binding)>::empty(), cursor as int),
        ));
        assert(out@.map_values(|nb: (String, Binding)| (nb.0@, nb.1)) + Seq::<
            (Seq<char>, Binding),
        >::empty() =~= out@.map_values(|nb: (String, Binding)| (nb.0@, nb.1)));
    }
    Some((out, cursor))
}

/// Decode a kernel definition off the wire: the inverse of [`encode`] on
/// everything encode produces, and nothing on any byte sequence that is
/// not a whole valid encoding.
pub fn decode(bytes: &Vec<u8>) -> (r: Option<KernelDefinition>)
    ensures
        spec_decode(bytes@) matches Some(v) ==> (r matches Some(d) && d@ == v),
        spec_decode(bytes@) is None ==> r is None,
{
    if bytes.len() % 8 != 0 {
        return None;
    }
    let wlen = bytes.len() / 8;
    let (inputs, p1) = match dec_bindings(bytes, 0) {
        None => {
            return None;
        },
        Some(x) => x,
    };
    let (outputs, p2) = match dec_bindings(bytes, p1) {
        None => {
            return None;
        },
        Some(x) => x,
    };
    let (named, p3) = match dec_named(bytes, p2) {
        None => {
            return None;
        },
        Some(x) => x,
    };
    if wlen - p3 != 4 {
        return None;
    }
    let wx = read_word(bytes, p3);
    let wy = read_word(bytes, p3 + 1);
    let wz = read_word(bytes, p3 + 2);
    let wd = read_word(bytes, p3 + 3);
    if wx > u32::MAX as u64 || wy > u32::MAX as u64 || wz > u32::MAX as u64 || wd > u8::MAX as u64 {
        return None;
    }
    Some(
        KernelDefinition {
            inputs,
            outputs,
            named,
            cube_dim: CubeDim { x: wx as u32, y: wy as u32, z: wz as u32 },
            body: Scope { depth: wd as u8 },
        },
    )
}

} // verus!
