//! Transmission of images to a terminal with the kitty graphics protocol: the
//! image is encoded as PNG, the PNG data as base64, and the base64 text is
//! sent in chunks of at most 4096 bytes, each in an escape sequence of its own.

use vstd::prelude::*;

verus! {

/// Maximum number of bytes of base64 text carried by one escape sequence.
pub const CHUNK_SIZE: usize = 4096;

/// The PNG file that `image::codecs::png::PngEncoder` writes for an 8-bit RGB
/// image of the given pixels and dimensions.
pub uninterp spec fn png_rgb8(pixels: Seq<u8>, width: u32, height: u32) -> Seq<u8>;

/// Encodes an 8-bit RGB image as PNG with `image::codecs::png::PngEncoder`
/// (version 0.23, `encode` with `ColorType::Rgb8`, which hands the work to
/// `png` 0.16). Claims that encoding succeeds exactly where both dimensions
/// are non-zero and the pixels hold `width * height * 3` bytes (the `png`
/// encoder refuses zero dimensions and a wrong data size, and writing to a
/// `Vec` never fails), that the bytes written are then `png_rgb8` of the
/// arguments, and that they fit in a `Vec`, which never holds more than
/// `isize::MAX` bytes. `requires` leaves out the dimensions whose data size
/// overflows, on which the encoder's unchecked size computation panics. Which
/// error is returned on failure is not stated.
#[verifier::external_body]
pub(crate) fn encode_png_rgb8(pixels: &[u8], width: u32, height: u32) -> (r: Result<
    Vec<u8>,
    ::image::ImageError,
>)
    requires
        width * height * 3 <= u32::MAX,
    ensures
        (r is Ok) <==> (width > 0 && height > 0 && pixels@.len() == width * height * 3),
        r matches Ok(png) ==> png@ == png_rgb8(pixels@, width, height) && png@.len()
            <= isize::MAX,
{
    let mut buf = Vec::new();
    let res = ::image::codecs::png::PngEncoder::new(&mut buf).encode(
        pixels,
        width,
        height,
        ::image::ColorType::Rgb8,
    );
    match res {
        Ok(()) => Ok(buf),
        Err(e) => Err(e),
    }
}

/// The base64 alphabet of RFC 4648: the symbol for the 6-bit value `v`.
pub open spec fn base64_symbol(v: int) -> u8 {
    if v < 26 {
        (65 + v) as u8  // 'A'..'Z'
    } else if v < 52 {
        (97 + v - 26) as u8  // 'a'..'z'
    } else if v < 62 {
        (48 + v - 52) as u8  // '0'..'9'
    } else if v == 62 {
        43u8  // '+'
    } else {
        47u8  // '/'
    }
}

/// Standard base64 (RFC 4648, section 4) of `d`, padded with `=`.
pub open spec fn base64_standard(d: Seq<u8>) -> Seq<u8>
    decreases d.len(),
{
    if d.len() == 0 {
        seq![]
    } else if d.len() == 1 {
        seq![base64_symbol(d[0] as int / 4), base64_symbol((d[0] as int % 4) * 16), 61u8, 61u8]
    } else if d.len() == 2 {
        seq![
            base64_symbol(d[0] as int / 4),
            base64_symbol((d[0] as int % 4) * 16 + d[1] as int / 16),
            base64_symbol((d[1] as int % 16) * 4),
            61u8,
        ]
    } else {
        seq![
            base64_symbol(d[0] as int / 4),
            base64_symbol((d[0] as int % 4) * 16 + d[1] as int / 16),
            base64_symbol((d[1] as int % 16) * 4 + d[2] as int / 64),
            base64_symbol(d[2] as int % 64),
        ] + base64_standard(d.skip(3))
    }
}

/// The 6-bit value of the base64 symbol `c` (RFC 4648 alphabet).
pub open spec fn base64_value(c: u8) -> int {
    if 65 <= c <= 90 {
        c - 65
    } else if 97 <= c <= 122 {
        c - 97 + 26
    } else if 48 <= c <= 57 {
        c - 48 + 52
    } else if c == 43 {
        62
    } else {
        63
    }
}

/// The bytes that padded standard base64 text `t` encodes, four symbols at a
/// time.
pub open spec fn base64_decode(t: Seq<u8>) -> Seq<u8>
    decreases t.len(),
{
    if t.len() < 4 {
        seq![]
    } else {
        let a = base64_value(t[0]);
        let b = base64_value(t[1]);
        let c = base64_value(t[2]);
        let d = base64_value(t[3]);
        let group = if t[2] == 61u8 {
            seq![(a * 4 + b / 16) as u8]
        } else if t[3] == 61u8 {
            seq![(a * 4 + b / 16) as u8, ((b % 16) * 16 + c / 4) as u8]
        } else {
            seq![(a * 4 + b / 16) as u8, ((b % 16) * 16 + c / 4) as u8, ((c % 4) * 64 + d) as u8]
        };
        group + base64_decode(t.skip(4))
    }
}

/// Each 6-bit value has a symbol of its own, which is not the padding `=`.
proof fn lemma_base64_symbol(v: int)
    requires
        0 <= v < 64,
    ensures
        base64_value(base64_symbol(v)) == v,
        base64_symbol(v) != 61u8,
{
}

/// Base64 loses nothing: decoding the base64 text of bytes gives the bytes
/// back.
pub proof fn lemma_base64_round_trip(d: Seq<u8>)
    ensures
        base64_decode(base64_standard(d)) == d,
    decreases d.len(),
{
    if d.len() == 0 {
    } else {
        let x = d[0] as int;
        lemma_base64_symbol(x / 4);
        if d.len() == 1 {
            lemma_base64_symbol((x % 4) * 16);
            let t = base64_standard(d);
            assert(t.skip(4) =~= Seq::<u8>::empty());
            assert(base64_decode(t.skip(4)) == Seq::<u8>::empty());
            assert(base64_decode(t) =~= d);
        } else {
            let y = d[1] as int;
            lemma_base64_symbol((x % 4) * 16 + y / 16);
            if d.len() == 2 {
                lemma_base64_symbol((y % 16) * 4);
                let t = base64_standard(d);
                assert(t.skip(4) =~= Seq::<u8>::empty());
                assert(base64_decode(t.skip(4)) == Seq::<u8>::empty());
                assert(base64_decode(t) =~= d);
            } else {
                let z = d[2] as int;
                lemma_base64_symbol((y % 16) * 4 + z / 64);
                lemma_base64_symbol(z % 64);
                lemma_base64_round_trip(d.skip(3));
                let t = base64_standard(d);
                let head: Seq<u8> = seq![
                    base64_symbol(x / 4),
                    base64_symbol((x % 4) * 16 + y / 16),
                    base64_symbol((y % 16) * 4 + z / 64),
                    base64_symbol(z % 64),
                ];
                assert(t == head + base64_standard(d.skip(3)));
                assert(t.skip(4) =~= base64_standard(d.skip(3)));
                assert(d =~= seq![d[0], d[1], d[2]] + d.skip(3));
                assert(base64_decode(t) =~= d);
            }
        }
    }
}

/// The length of the base64 text of `n` bytes fits in a `usize`.
pub open spec fn base64_len_fits(n: nat) -> bool {
    (n / 3) * 4 + (if n % 3 == 0 {
        0int
    } else {
        4int
    }) <= usize::MAX
}

/// Encodes bytes as base64 with `base64::encode` (version 0.13, standard
/// alphabet with padding), and returns the bytes of the text. Claims that they
/// are `base64_standard` of the input. `requires` leaves out the inputs on
/// which the encoded length overflows `usize`, where `base64::encode` panics.
#[verifier::external_body]
pub(crate) fn base64_encode(data: &[u8]) -> (r: Vec<u8>)
    requires
        base64_len_fits(data@.len()),
    ensures
        r@ == base64_standard(data@),
{
    base64::encode(data).into_bytes()
}

/// Escape sequence that opens the first chunk: transmit and display a PNG
/// image (`ESC _ G f=100,a=T,m=`).
pub open spec fn first_header() -> Seq<u8> {
    seq![0x1Bu8, 95u8, 71u8, 102u8, 61u8, 49u8, 48u8, 48u8, 44u8, 97u8, 61u8, 84u8, 44u8, 109u8, 61u8]
}

/// Escape sequence that opens the following chunks (`ESC _ G m=`).
pub open spec fn next_header() -> Seq<u8> {
    seq![0x1Bu8, 95u8, 71u8, 109u8, 61u8]
}

/// Escape sequence that closes a chunk (`ESC \`).
pub open spec fn chunk_trailer() -> Seq<u8> {
    seq![0x1Bu8, 92u8]
}

/// One chunk in its escape sequence: `more` tells whether chunks follow
/// (`m=1`) or not (`m=0`).
pub open spec fn frame(chunk: Seq<u8>, first: bool, more: bool) -> Seq<u8> {
    (if first {
        first_header()
    } else {
        next_header()
    }) + seq![if more { 49u8 } else { 48u8 }, 59u8] + chunk + chunk_trailer()
}

/// The text `rest` cut into chunks of `CHUNK_SIZE` bytes (the last one
/// shorter), each in its escape sequence; `first` tells whether the first
/// chunk of `rest` is the first chunk of the image.
pub open spec fn frames(rest: Seq<u8>, first: bool) -> Seq<u8>
    decreases rest.len(),
{
    if rest.len() == 0 {
        seq![]
    } else if rest.len() <= CHUNK_SIZE {
        frame(rest, first, false)
    } else {
        frame(rest.take(CHUNK_SIZE as int), first, true) + frames(rest.skip(CHUNK_SIZE as int), false)
    }
}

/// What is sent to the terminal for the base64 text `encoded`: its chunks,
/// then a new line.
pub open spec fn kitty_stream(encoded: Seq<u8>) -> Seq<u8> {
    frames(encoded, true) + seq![10u8]
}

/// The chunks that the text `rest` is cut into.
pub open spec fn chunks(rest: Seq<u8>) -> Seq<Seq<u8>>
    decreases rest.len(),
{
    if rest.len() == 0 {
        seq![]
    } else if rest.len() <= CHUNK_SIZE {
        seq![rest]
    } else {
        seq![rest.take(CHUNK_SIZE as int)] + chunks(rest.skip(CHUNK_SIZE as int))
    }
}

/// The chunks `cs` in their escape sequences, every one but the last telling
/// that more follow.
pub open spec fn framed_chunks(cs: Seq<Seq<u8>>, first: bool) -> Seq<u8>
    decreases cs.len(),
{
    if cs.len() == 0 {
        seq![]
    } else {
        frame(cs[0], first, cs.len() > 1) + framed_chunks(cs.drop_first(), false)
    }
}

/// The chunks `cs` put back together.
pub open spec fn concat_chunks(cs: Seq<Seq<u8>>) -> Seq<u8>
    decreases cs.len(),
{
    if cs.len() == 0 {
        seq![]
    } else {
        cs[0] + concat_chunks(cs.drop_first())
    }
}

/// The escape sequences carry the base64 text whole and in order: the text is
/// cut into chunks of 1 to 4096 bytes which, put back together, give the text
/// again; each chunk stands in an escape sequence of its own, and all but the
/// last tell that more follow.
pub proof fn lemma_frames_carry_text(rest: Seq<u8>, first: bool)
    ensures
        frames(rest, first) == framed_chunks(chunks(rest), first),
        concat_chunks(chunks(rest)) == rest,
        forall|i: int|
            0 <= i < chunks(rest).len() ==> 0 < #[trigger] chunks(rest)[i].len() <= CHUNK_SIZE,
    decreases rest.len(),
{
    if rest.len() == 0 {
    } else if rest.len() <= CHUNK_SIZE {
        let cs = chunks(rest);
        assert(cs.drop_first() =~= Seq::<Seq<u8>>::empty());
        assert(concat_chunks(cs.drop_first()) == Seq::<u8>::empty());
        assert(framed_chunks(cs.drop_first(), false) == Seq::<u8>::empty());
        assert(concat_chunks(cs) =~= rest);
        assert(framed_chunks(cs, first) =~= frame(rest, first, false));
    } else {
        let tail = rest.skip(CHUNK_SIZE as int);
        lemma_frames_carry_text(tail, false);
        let cs = chunks(rest);
        assert(cs.drop_first() =~= chunks(tail));
        lemma_chunks_nonempty(tail);
        assert(concat_chunks(cs) =~= rest.take(CHUNK_SIZE as int) + tail);
        assert(rest.take(CHUNK_SIZE as int) + tail =~= rest);
        assert forall|i: int| 0 <= i < cs.len() implies 0 < #[trigger] cs[i].len() <= CHUNK_SIZE by {
            if i > 0 {
                assert(cs[i] == chunks(tail)[i - 1]);
            }
        }
    }
}

/// A non-empty text is cut into at least one chunk.
proof fn lemma_chunks_nonempty(rest: Seq<u8>)
    ensures
        rest.len() > 0 ==> chunks(rest).len() > 0,
        rest.len() == 0 ==> chunks(rest).len() == 0,
{
}

/// The payloads of the escape sequences that carry bytes `data` give `data`
/// back: put together they are its base64 text, which decodes to `data`, in
/// chunks of 1 to 4096 bytes.
pub proof fn lemma_kitty_payloads_decode(data: Seq<u8>)
    ensures
        kitty_stream(base64_standard(data)) == framed_chunks(chunks(base64_standard(data)), true)
            + seq![10u8],
        base64_decode(concat_chunks(chunks(base64_standard(data)))) == data,
        forall|i: int|
            0 <= i < chunks(base64_standard(data)).len() ==> 0 < #[trigger] chunks(
                base64_standard(data),
            )[i].len() <= CHUNK_SIZE,
{
    lemma_frames_carry_text(base64_standard(data), true);
    lemma_base64_round_trip(data);
}

/// Appends `src[start..end]` to `out`.
fn append_range(out: &mut Vec<u8>, src: &[u8], start: usize, end: usize)
    requires
        start <= end <= src@.len(),
    ensures
        final(out)@ == old(out)@ + src@.subrange(start as int, end as int),
{
    let mut i = start;
    while i < end
        invariant
            start <= i <= end <= src@.len(),
            out@ == old(out)@ + src@.subrange(start as int, i as int),
        decreases end - i,
    {
        out.push(src[i]);
        i = i + 1;
        assert(out@ =~= old(out)@ + src@.subrange(start as int, i as int));
    }
}

/// Appends the escape sequence that opens a chunk.
fn append_header(out: &mut Vec<u8>, first: bool)
    ensures
        final(out)@ == old(out)@ + (if first {
            first_header()
        } else {
            next_header()
        }),
{
    out.push(0x1B);
    out.push(95);  // '_'
    out.push(71);  // 'G'
    if first {
        out.push(102);  // 'f'
        out.push(61);  // '='
        out.push(49);  // '1'
        out.push(48);  // '0'
        out.push(48);  // '0'
        out.push(44);  // ','
        out.push(97);  // 'a'
        out.push(61);  // '='
        out.push(84);  // 'T'
        out.push(44);  // ','
    }
    out.push(109);  // 'm'
    out.push(61);  // '='
    assert(out@ =~= old(out)@ + (if first {
        first_header()
    } else {
        next_header()
    }));
}

/// Frames base64 text in the escape sequences of the kitty graphics protocol:
/// chunks of at most 4096 bytes, the first one announcing a PNG image to
/// transmit and display, each telling whether more follow, then a new line.
pub fn kitty_frame(encoded: &[u8]) -> (r: Vec<u8>)
    ensures
        r@ == kitty_stream(encoded@),
{
    let n = encoded.len();
    let mut out: Vec<u8> = Vec::new();
    let mut start: usize = 0;
    assert(encoded@.skip(0) =~= encoded@);
    assert(out@ + frames(encoded@, true) =~= frames(encoded@, true));
    while start < n
        invariant
            n == encoded@.len(),
            start <= n,
            out@ + frames(encoded@.skip(start as int), start == 0) == frames(encoded@, true),
        decreases n - start,
    {
        let ghost rest = encoded@.skip(start as int);
        let end = if n - start > CHUNK_SIZE {
            start + CHUNK_SIZE
        } else {
            n
        };
        let more = end < n;
        let ghost before = out@;
        append_header(&mut out, start == 0);
        out.push(if more {
            49
        } else {
            48
        });
        out.push(59);  // ';'
        append_range(&mut out, encoded, start, end);
        out.push(0x1B);
        out.push(92);  // '\'
        proof {
            let chunk = encoded@.subrange(start as int, end as int);
            assert(out@ =~= before + frame(chunk, start == 0, more));
            if more {
                assert(chunk =~= rest.take(CHUNK_SIZE as int));
                assert(rest.skip(CHUNK_SIZE as int) =~= encoded@.skip(end as int));
                assert(frames(rest, start == 0) == frame(chunk, start == 0, true) + frames(
                    encoded@.skip(end as int),
                    false,
                ));
            } else {
                assert(chunk =~= rest);
                assert(encoded@.skip(end as int) =~= Seq::<u8>::empty());
            }
            assert(out@ + frames(encoded@.skip(end as int), end == 0) =~= before + frames(
                rest,
                start == 0,
            ));
        }
        start = end;
    }
    assert(encoded@.skip(n as int) =~= Seq::<u8>::empty());
    out.push(10);  // '\n'
    assert(out@ =~= frames(encoded@, true) + seq![10u8]);
    out
}

/// Encodes PNG data as base64 and frames the text in the escape sequences of
/// the kitty graphics protocol.
pub fn kitty_from_png(png: &[u8]) -> (r: Vec<u8>)
    requires
        base64_len_fits(png@.len()),
    ensures
        r@ == kitty_stream(base64_standard(png@)),
{
    let encoded = base64_encode(png);
    kitty_frame(encoded.as_slice())
}

/// The pieces that carry one chunk, each written on its own: the opening
/// escape sequence, the `m` flag, `;`, the chunk, and the closing sequence.
pub open spec fn frame_pieces(chunk: Seq<u8>, first: bool, more: bool) -> Seq<Seq<u8>> {
    seq![
        if first {
            first_header()
        } else {
            next_header()
        },
        seq![if more { 49u8 } else { 48u8 }],
        seq![59u8],
        chunk,
        chunk_trailer(),
    ]
}

/// The pieces that carry the text `rest`, chunk by chunk.
pub open spec fn pieces(rest: Seq<u8>, first: bool) -> Seq<Seq<u8>>
    decreases rest.len(),
{
    if rest.len() == 0 {
        seq![]
    } else if rest.len() <= CHUNK_SIZE {
        frame_pieces(rest, first, false)
    } else {
        frame_pieces(rest.take(CHUNK_SIZE as int), first, true) + pieces(
            rest.skip(CHUNK_SIZE as int),
            false,
        )
    }
}

/// The pieces, in the order they are written, that send the base64 text
/// `encoded` to the terminal: those of its chunks, then a new line.
pub open spec fn kitty_pieces(encoded: Seq<u8>) -> Seq<Seq<u8>> {
    pieces(encoded, true) + seq![seq![10u8]]
}

/// The pieces `ps` put together.
pub open spec fn concat_pieces(ps: Seq<Seq<u8>>) -> Seq<u8>
    decreases ps.len(),
{
    if ps.len() == 0 {
        seq![]
    } else {
        concat_pieces(ps.drop_last()) + ps.last()
    }
}

/// Putting two runs of pieces together one after the other.
proof fn lemma_concat_pieces_add(a: Seq<Seq<u8>>, b: Seq<Seq<u8>>)
    ensures
        concat_pieces(a + b) == concat_pieces(a) + concat_pieces(b),
    decreases b.len(),
{
    if b.len() == 0 {
        assert(a + b =~= a);
        assert(concat_pieces(a) + concat_pieces(b) =~= concat_pieces(a));
    } else {
        lemma_concat_pieces_add(a, b.drop_last());
        assert((a + b).drop_last() =~= a + b.drop_last());
        assert(concat_pieces(a + b) =~= concat_pieces(a) + concat_pieces(b));
    }
}

/// The pieces of a text, written one after the other, give its chunks in
/// their escape sequences.
proof fn lemma_pieces_make_frames(rest: Seq<u8>, first: bool)
    ensures
        concat_pieces(pieces(rest, first)) == frames(rest, first),
    decreases rest.len(),
{
    if rest.len() == 0 {
    } else if rest.len() <= CHUNK_SIZE {
        lemma_frame_pieces(rest, first, false);
    } else {
        let tail = rest.skip(CHUNK_SIZE as int);
        lemma_pieces_make_frames(tail, false);
        lemma_frame_pieces(rest.take(CHUNK_SIZE as int), first, true);
        lemma_concat_pieces_add(
            frame_pieces(rest.take(CHUNK_SIZE as int), first, true),
            pieces(tail, false),
        );
    }
}

/// The pieces written one after the other give the framed stream: writing
/// them in turn sends the same bytes as `kitty_stream`.
pub proof fn lemma_pieces_make_stream(encoded: Seq<u8>)
    ensures
        concat_pieces(kitty_pieces(encoded)) == kitty_stream(encoded),
{
    lemma_pieces_make_frames(encoded, true);
    let nl: Seq<Seq<u8>> = seq![seq![10u8]];
    lemma_concat_pieces_add(pieces(encoded, true), nl);
    assert(nl.drop_last() =~= Seq::<Seq<u8>>::empty());
    assert(concat_pieces(nl.drop_last()) == Seq::<u8>::empty());
    assert(nl.last() == seq![10u8]);
    assert(concat_pieces(nl) =~= seq![10u8]);
}

/// The pieces of one chunk give its escape sequence.
proof fn lemma_frame_pieces(chunk: Seq<u8>, first: bool, more: bool)
    ensures
        concat_pieces(frame_pieces(chunk, first, more)) == frame(chunk, first, more),
{
    let ps = frame_pieces(chunk, first, more);
    reveal_with_fuel(concat_pieces, 6);
    assert(ps.drop_last().drop_last().drop_last().drop_last().drop_last() =~= Seq::<
        Seq<u8>,
    >::empty());
    assert(concat_pieces(ps) =~= frame(chunk, first, more));
}

/// The bytes `src[start..end]`, as a vector of their own.
fn range_vec(src: &[u8], start: usize, end: usize) -> (r: Vec<u8>)
    requires
        start <= end <= src@.len(),
    ensures
        r@ == src@.subrange(start as int, end as int),
{
    let mut v: Vec<u8> = Vec::new();
    append_range(&mut v, src, start, end);
    assert(v@ =~= src@.subrange(start as int, end as int));
    v
}

/// A vector of one byte.
fn byte_vec(b: u8) -> (r: Vec<u8>)
    ensures
        r@ == seq![b],
{
    let mut v: Vec<u8> = Vec::new();
    v.push(b);
    assert(v@ =~= seq![b]);
    v
}

/// Cuts base64 text into the pieces, in order, that send it to a terminal
/// with the kitty graphics protocol; written one after the other they give
/// `kitty_frame` of the text.
pub fn kitty_frame_pieces(encoded: &[u8]) -> (r: Vec<Vec<u8>>)
    ensures
        r@.map_values(|v: Vec<u8>| v@) == kitty_pieces(encoded@),
{
    let n = encoded.len();
    let mut out: Vec<Vec<u8>> = Vec::new();
    let mut start: usize = 0;
    assert(encoded@.skip(0) =~= encoded@);
    assert(out@.map_values(|v: Vec<u8>| v@) + pieces(encoded@, true) =~= pieces(encoded@, true));
    while start < n
        invariant
            n == encoded@.len(),
            start <= n,
            out@.map_values(|v: Vec<u8>| v@) + pieces(encoded@.skip(start as int), start == 0)
                == pieces(encoded@, true),
        decreases n - start,
    {
        let ghost rest = encoded@.skip(start as int);
        let end = if n - start > CHUNK_SIZE {
            start + CHUNK_SIZE
        } else {
            n
        };
        let more = end < n;
        let ghost before = out@.map_values(|v: Vec<u8>| v@);
        let mut header: Vec<u8> = Vec::new();
        append_header(&mut header, start == 0);
        out.push(header);
        out.push(byte_vec(if more {
            49
        } else {
            48
        }));
        out.push(byte_vec(59));
        out.push(range_vec(encoded, start, end));
        let mut trailer: Vec<u8> = Vec::new();
        trailer.push(0x1B);
        trailer.push(92);
        assert(trailer@ =~= chunk_trailer());
        out.push(trailer);
        proof {
            let chunk = encoded@.subrange(start as int, end as int);
            assert(out@.map_values(|v: Vec<u8>| v@) =~= before + frame_pieces(
                chunk,
                start == 0,
                more,
            ));
            if more {
                assert(chunk =~= rest.take(CHUNK_SIZE as int));
                assert(rest.skip(CHUNK_SIZE as int) =~= encoded@.skip(end as int));
            } else {
                assert(chunk =~= rest);
                assert(encoded@.skip(end as int) =~= Seq::<u8>::empty());
            }
            assert(out@.map_values(|v: Vec<u8>| v@) + pieces(encoded@.skip(end as int), end == 0)
                =~= before + pieces(rest, start == 0));
        }
        start = end;
    }
    assert(encoded@.skip(n as int) =~= Seq::<u8>::empty());
    out.push(byte_vec(10));
    assert(out@.map_values(|v: Vec<u8>| v@) =~= kitty_pieces(encoded@));
    out
}

/// Encodes PNG data as base64 and cuts the text into the pieces, in order,
/// that send it to a terminal with the kitty graphics protocol.
pub fn kitty_pieces_from_png(png: &[u8]) -> (r: Vec<Vec<u8>>)
    requires
        base64_len_fits(png@.len()),
    ensures
        r@.map_values(|v: Vec<u8>| v@) == kitty_pieces(base64_standard(png@)),
{
    let encoded = base64_encode(png);
    kitty_frame_pieces(encoded.as_slice())
}

} // verus!
