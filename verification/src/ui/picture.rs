//! The pictures of a body: the bytes that each is drawn from, the keys that
//! drawn ones are kept under, and what the bytes decode to.

use crate::app::sync;
use crate::model::ImageSource;
use crate::text;
use crate::ui::reading;
use crate::ui::reading::ImageRef;
use vstd::prelude::*;

verus! {

/// The most columns, or rows, of pixels that a picture may have.
pub const MAX_SIDE: u32 = 10000;

/// The most bytes that decoding a picture may take.
pub const MAX_BYTES: u64 = 268435456;

/// A decoded picture: its pixels, row by row, each as red, green, blue and
/// opacity.
#[derive(Debug, PartialEq, Eq)]
pub struct Picture {
    pub width: u32,
    pub height: u32,
    pub rgba: Vec<u8>,
}

impl Picture {
    pub open spec fn wf(self) -> bool {
        self.rgba@.len() == 4 * (self.width * self.height)
    }
}

// ---------------------------------------------------------------------------
// What is drawn
// ---------------------------------------------------------------------------

/// The key and the bytes of a picture, where its bytes are there: those of an
/// attachment once they are fetched, those in the body at once. What lies
/// elsewhere is not drawn.
pub open spec fn drawn_from(src: ImageSource, fetched: Seq<(String, Vec<u8>)>) -> Option<
    (Seq<char>, Seq<u8>),
> {
    match src {
        ImageSource::Cid(c) => {
            let i = sync::image_at(fetched, c@);
            if i < fetched.len() {
                Some(("cid:"@ + c@, fetched[i].1@))
            } else {
                None
            }
        },
        ImageSource::Data(b) => Some((reading::key_of(b@), b@)),
        _ => None,
    }
}

pub open spec fn key_and_bytes(r: Option<(String, &[u8])>) -> Option<(Seq<char>, Seq<u8>)> {
    match r {
        Some((k, b)) => Some((k@, b@)),
        None => None,
    }
}

/// What an image of the body is drawn from. `fetched` are the images fetched for
/// the body.
pub fn source_of<'a>(img: &'a ImageRef, fetched: &'a Vec<(String, Vec<u8>)>) -> (r: Option<
    (String, &'a [u8]),
>)
    ensures
        key_and_bytes(r) == drawn_from(img.src, fetched@),
{
    match &img.src {
        ImageSource::Cid(c) => {
            let i = sync::find_image(fetched, c);
            if i < fetched.len() {
                let mut key: String = "cid:".to_string();
                key.append(c.as_str());
                Some((key, fetched[i].1.as_slice()))
            } else {
                None
            }
        },
        ImageSource::Data(b) => Some((reading::data_image_key(b.as_slice()), b.as_slice())),
        _ => None,
    }
}

/// The key that a picture is kept under once it is drawn at a size.
pub fn size_key(key: &str, width: u16, height: u16) -> (r: String)
    ensures
        r@ == key@ + "#"@ + text::integer(width as int) + "x"@ + text::integer(height as int),
{
    let mut s: String = key.to_string();
    s.append("#");
    text::push_integer(&mut s, width as i128);
    s.append("x");
    text::push_integer(&mut s, height as i128);
    s
}

// ---------------------------------------------------------------------------
// Decoding
// ---------------------------------------------------------------------------

/// How wide and high the picture is that bytes decode to, in pixels.
pub uninterp spec fn picture_size(bytes: Seq<u8>) -> (u32, u32);

/// What is asked of the decoder: the bytes, the most pixels each way, and the
/// most memory that decoding may take.
pub struct DecodeRequest<'a> {
    pub bytes: &'a [u8],
    pub side: u32,
    pub alloc: u64,
}

/// A picture, and within `side` pixels each way.
pub open spec fn within(p: Picture, side: int) -> bool {
    p.wf() && p.width <= side && p.height <= side
}

/// `ImageReader::decode`, on bytes whose format is guessed from them, under
/// limits: a picture has the size that its bytes say, is at most `side` wide and
/// high, which are strict limits of that crate, and has four bytes a pixel. That
/// it takes at most `alloc` bytes is a limit that decoders may ignore. Whether
/// there is a picture, and what colors it has, is not said here: decoders give up
/// where the machine has no memory for them, and use what vector instructions it
/// has.
#[verifier::external_body]
fn decode_within(asked: &DecodeRequest) -> (r: Option<Picture>)
    ensures
        r matches Some(p) ==> (p.width, p.height) == picture_size(asked.bytes@),
        r matches Some(p) ==> within(p, asked.side as int),
{
    let source = std::io::Cursor::new(asked.bytes);
    let mut reader = image::ImageReader::new(source).with_guessed_format().ok()?;
    let mut limits = image::Limits::default();
    limits.max_image_width = Some(asked.side);
    limits.max_image_height = Some(asked.side);
    limits.max_alloc = Some(asked.alloc);
    reader.limits(limits);
    let rgba = reader.decode().ok()?.to_rgba8();
    Some(Picture { width: rgba.width(), height: rgba.height(), rgba: rgba.into_raw() })
}

/// What is asked of the decoder for a picture that came with a message. Whoever
/// sent it chose its bytes, so there is a limit to everything.
pub fn request<'a>(bytes: &'a [u8]) -> (r: DecodeRequest<'a>)
    ensures
        r.bytes@ == bytes@,
        r.side == 10000,
        r.alloc == 268435456,
{
    DecodeRequest { bytes, side: MAX_SIDE, alloc: MAX_BYTES }
}

/// Decodes a picture that came with a message. One that is too large is none.
pub fn decode(bytes: &[u8]) -> (r: Option<Picture>)
    ensures
        r matches Some(p) ==> (p.width, p.height) == picture_size(bytes@),
        r matches Some(p) ==> within(p, 10000),
        picture_size(bytes@).0 > 10000 || picture_size(bytes@).1 > 10000 ==> r is None,
{
    let asked = request(bytes);
    decode_within(&asked)
}

// ---------------------------------------------------------------------------
// Laws
// ---------------------------------------------------------------------------

/// What was fetched for a content id is what its picture is drawn from.
pub proof fn fetched_images_are_drawn(
    before: Seq<(String, Vec<u8>)>,
    after: Seq<(String, Vec<u8>)>,
    id: String,
    bytes: Vec<u8>,
)
    requires
        sync::image_kept(before, after, id, bytes),
    ensures
        drawn_from(ImageSource::Cid(id), after) == Some(("cid:"@ + id@, bytes@)),
{
    lemma_kept_at(before, after, id, bytes);
}

proof fn lemma_kept_at(
    before: Seq<(String, Vec<u8>)>,
    after: Seq<(String, Vec<u8>)>,
    id: String,
    bytes: Vec<u8>,
)
    requires
        sync::image_kept(before, after, id, bytes),
    ensures
        sync::image_at(after, id@) < after.len(),
        after[sync::image_at(after, id@)].1 == bytes,
        sync::image_at(after, id@) >= 0,
    decreases before.len(),
{
    if before.len() == 0 {
        assert(after[0].0 == id);
    } else if before[0].0@ == id@ {
        assert(after[0].0 == before[0].0);
    } else {
        let i = sync::image_at(before.skip(1), id@);
        lemma_at_range(before.skip(1), id@);
        assert(after[0] == before[0]);
        if i < before.len() - 1 {
            assert(after.skip(1) =~= before.skip(1).update(i, (before.skip(1)[i].0, bytes)));
        } else {
            assert(after.skip(1) =~= before.skip(1).push((id, bytes)));
        }
        lemma_kept_at(before.skip(1), after.skip(1), id, bytes);
    }
}

proof fn lemma_at_range(v: Seq<(String, Vec<u8>)>, id: Seq<char>)
    ensures
        0 <= sync::image_at(v, id) <= v.len(),
    decreases v.len(),
{
    if v.len() > 0 && v[0].0@ != id {
        lemma_at_range(v.skip(1), id);
    }
}

}
