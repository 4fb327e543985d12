use vstd::prelude::*;
use vstd::string::*;
use crate::codec::{
    base64_decoding, base64_text, decode_base64, decodes_as_image, dimensions, encode_base64,
    encode_jpeg, image_dims, jpeg_encoding, load_image, resample,
};
use crate::geometry::{fitted, fitted_size, lemma_fitted_idempotent};
use crate::text::{after_first_comma, is_data_uri, jpeg_data_uri, jpeg_uri_prefix, payload, payload_of, size_label, size_label_of};

verus! {

/// Why an image could not be decoded.
#[derive(Debug)]
pub enum DecodeFailure {
    /// The payload is not valid base64.
    Base64(base64::DecodeError),
    /// The decoded bytes are not an image of a recognised format.
    Image(image::ImageError),
}

/// The errors of the processor.
#[derive(Debug)]
pub enum ProcessorError {
    /// A data URI without the comma before its payload.
    MalformedInput,
    /// The payload could not be decoded into an image.
    DecodeError(DecodeFailure),
    /// An image could not be encoded as JPEG.
    EncodeError(image::ImageError),
}

/// An ordered batch of decoded images.
pub struct ImageProcessor {
    images: Vec<image::DynamicImage>,
}

/// The sizes of a sequence of images, in order.
pub open spec fn sizes_of(images: Seq<image::DynamicImage>) -> Seq<(u32, u32)> {
    images.map_values(|img: image::DynamicImage| image_dims(img))
}

/// Whether an input text would be taken in: it has a payload that is valid
/// base64 of bytes that decode as an image.
pub open spec fn ingestible(t: Seq<u8>) -> bool {
    match payload(t) {
        Some(p) => match base64_decoding(p) {
            Some(b) => decodes_as_image(b),
            None => false,
        },
        None => false,
    }
}

/// The size of an image after a bounding-box resize.
pub open spec fn fitted_dims(d: (u32, u32), max_width: u32, max_height: u32) -> (u32, u32) {
    fitted(d.0, d.1, max_width, max_height)
}

/// The resampling buffers for an image of size `d` fit in memory addressing.
pub open spec fn resize_fits(d: (u32, u32), max_width: u32, max_height: u32) -> bool {
    let n = fitted_dims(d, max_width, max_height);
    &&& d.0 as int * n.1 as int * 4 <= usize::MAX
    &&& n.0 as int * n.1 as int * 4 <= usize::MAX
}

/// `after` is `before` with every image resized into the bounding box: each
/// has its fitted size, and one whose size was already a fitted size is the
/// very same image.
pub open spec fn resized_from(
    before: Seq<image::DynamicImage>,
    after: Seq<image::DynamicImage>,
    max_width: u32,
    max_height: u32,
) -> bool {
    &&& after.len() == before.len()
    &&& forall|i: int|
        0 <= i < before.len() ==> image_dims(#[trigger] after[i]) == fitted_dims(
            image_dims(before[i]),
            max_width,
            max_height,
        )
    &&& forall|i: int|
        0 <= i < before.len() && fitted_dims(image_dims(before[i]), max_width, max_height)
            == image_dims(before[i]) ==> #[trigger] after[i] == before[i]
}

/// The JPEG data URI of an image whose encoding is `jpeg`.
pub open spec fn jpeg_uri(jpeg: Seq<u8>) -> Seq<char> {
    jpeg_uri_prefix() + base64_text(jpeg)
}

/// The bytes of `data:`.
pub open spec fn data_scheme() -> Seq<u8> {
    seq![0x64u8, 0x61u8, 0x74u8, 0x61u8, 0x3au8]
}

proof fn lemma_after_comma_of_split(a: Seq<u8>, b: Seq<u8>)
    requires
        forall|i: int| 0 <= i < a.len() ==> a[i] != 0x2cu8,
    ensures
        after_first_comma(a + seq![0x2cu8] + b) == Some(b),
    decreases a.len(),
{
    let s = a + seq![0x2cu8] + b;
    if a.len() == 0 {
        assert(s.drop_first() =~= b);
    } else {
        lemma_after_comma_of_split(a.drop_first(), b);
        assert(s.drop_first() =~= a.drop_first() + seq![0x2cu8] + b);
    }
}

/// A data URI `data:<media type>,<payload>` whose media type holds no comma
/// carries exactly the payload, and is taken in exactly when the bare payload
/// is, provided the payload does not itself start with `data:`.
pub proof fn lemma_data_uri_matches_bare(media_type: Seq<u8>, p: Seq<u8>)
    requires
        forall|i: int| 0 <= i < media_type.len() ==> media_type[i] != 0x2cu8,
        !is_data_uri(p),
    ensures
        payload(data_scheme() + media_type + seq![0x2cu8] + p) == payload(p),
        payload(p) == Some(p),
        ingestible(data_scheme() + media_type + seq![0x2cu8] + p) == ingestible(p),
{
    let a = data_scheme() + media_type;
    assert forall|i: int| 0 <= i < a.len() implies a[i] != 0x2cu8 by {
        if i >= 5 {
            assert(a[i] == media_type[i - 5]);
        }
    }
    lemma_after_comma_of_split(a, p);
    assert(is_data_uri(a + seq![0x2cu8] + p));
}

/// Appending an image appends its size to the sizes and keeps the sizes of
/// the images before it, in their order.
pub proof fn lemma_push_keeps_order(images: Seq<image::DynamicImage>, img: image::DynamicImage)
    ensures
        sizes_of(images.push(img)) == sizes_of(images).push(image_dims(img)),
{
    assert(sizes_of(images.push(img)) =~= sizes_of(images).push(image_dims(img)));
}

/// Resizing twice into the same bounding box gives what resizing once gave:
/// the second resize leaves every image as it is.
pub proof fn lemma_resize_idempotent(
    a: Seq<image::DynamicImage>,
    b: Seq<image::DynamicImage>,
    c: Seq<image::DynamicImage>,
    max_width: u32,
    max_height: u32,
)
    requires
        resized_from(a, b, max_width, max_height),
        resized_from(b, c, max_width, max_height),
    ensures
        c == b,
{
    assert forall|i: int| 0 <= i < b.len() implies c[i] == b[i] by {
        let d = image_dims(a[i]);
        lemma_fitted_idempotent(d.0, d.1, max_width, max_height);
        assert(image_dims(b[i]) == fitted_dims(d, max_width, max_height));
        assert(fitted_dims(image_dims(b[i]), max_width, max_height) == image_dims(b[i]));
    }
    assert(c =~= b);
}

proof fn lemma_u32_product_bound(a: u32, b: u32)
    ensures
        a as int * b as int <= 0xffff_ffff_ffff_ffff,
{
    assert(a as int * b as int <= 0xffff_ffff_ffff_ffff) by (nonlinear_arith)
        requires a as int <= 0xffff_ffff, b as int <= 0xffff_ffff, 0 <= a as int, 0 <= b as int;
}

impl View for ImageProcessor {
    type V = Seq<image::DynamicImage>;

    closed spec fn view(&self) -> Seq<image::DynamicImage> {
        self.images@
    }
}

impl ImageProcessor {
    /// An empty processor.
    pub fn new() -> (r: ImageProcessor)
        ensures
            r@ == Seq::<image::DynamicImage>::empty(),
    {
        ImageProcessor { images: Vec::new() }
    }

    /// Appends a decoded image at the end of the batch.
    pub fn push_image(&mut self, img: image::DynamicImage)
        ensures
            final(self)@ == old(self)@.push(img),
    {
        self.images.push(img);
    }

    /// Decodes an image given as base64 text or as a base64 data URI and
    /// appends it at the end of the batch.
    pub fn add_image_from_base64(&mut self, base64_data: &str) -> (r: Result<(), ProcessorError>)
        ensures
            r is Ok == ingestible(base64_data.spec_bytes()),
            r is Ok ==> exists|img: image::DynamicImage| final(self)@ == old(self)@.push(img),
            r is Err ==> final(self)@ == old(self)@,
            match r {
                Err(ProcessorError::MalformedInput) => payload(base64_data.spec_bytes()) is None,
                Err(ProcessorError::DecodeError(DecodeFailure::Base64(_))) => {
                    &&& payload(base64_data.spec_bytes()) is Some
                    &&& base64_decoding(payload(base64_data.spec_bytes())->Some_0) is None
                },
                Err(ProcessorError::DecodeError(DecodeFailure::Image(_))) => {
                    &&& payload(base64_data.spec_bytes()) is Some
                    &&& base64_decoding(payload(base64_data.spec_bytes())->Some_0) is Some
                },
                Err(ProcessorError::EncodeError(_)) => false,
                Ok(()) => true,
            },
    {
        let text = match payload_of(base64_data) {
            Some(p) => p,
            None => return Err(ProcessorError::MalformedInput),
        };
        let bytes = match decode_base64(text) {
            Ok(b) => b,
            Err(e) => return Err(ProcessorError::DecodeError(DecodeFailure::Base64(e))),
        };
        let img = match load_image(bytes.as_slice()) {
            Ok(img) => img,
            Err(e) => return Err(ProcessorError::DecodeError(DecodeFailure::Image(e))),
        };
        self.push_image(img);
        Ok(())
    }

    /// Downscales every image that exceeds the bounding box, keeping its
    /// aspect ratio; images within the box are left as they are.
    pub fn resize_images(&mut self, max_width: u32, max_height: u32) -> (r: Result<(), ProcessorError>)
        requires
            forall|i: int|
                0 <= i < old(self)@.len() ==> resize_fits(
                    image_dims(#[trigger] old(self)@[i]),
                    max_width,
                    max_height,
                ),
        ensures
            r is Ok,
            resized_from(old(self)@, final(self)@, max_width, max_height),
    {
        let n = self.images.len();
        let mut i: usize = 0;
        while i < n
            invariant
                0 <= i <= n,
                n == old(self)@.len(),
                self.images@.len() == n,
                forall|j: int|
                    0 <= j < n ==> resize_fits(
                        image_dims(#[trigger] old(self)@[j]),
                        max_width,
                        max_height,
                    ),
                forall|j: int| i <= j < n ==> #[trigger] self.images@[j] == old(self)@[j],
                forall|j: int|
                    0 <= j < i ==> image_dims(#[trigger] self.images@[j]) == fitted_dims(
                        image_dims(old(self)@[j]),
                        max_width,
                        max_height,
                    ),
                forall|j: int|
                    0 <= j < i && fitted_dims(image_dims(old(self)@[j]), max_width, max_height)
                        == image_dims(old(self)@[j]) ==> #[trigger] self.images@[j]
                        == old(self)@[j],
            decreases n - i,
        {
            let (width, height) = dimensions(&self.images[i]);
            let (new_width, new_height) = fitted_size(width, height, max_width, max_height);
            if new_width != width || new_height != height {
                let img = resample(&self.images[i], new_width, new_height);
                self.images.set(i, img);
            }
            i = i + 1;
        }
        Ok(())
    }

    /// Whether `resize_images(max_width, max_height)` can run on this batch:
    /// every resampling buffer it needs has a length that fits in `usize`.
    pub fn can_resize(&self, max_width: u32, max_height: u32) -> (r: bool)
        ensures
            r == forall|i: int|
                0 <= i < self@.len() ==> resize_fits(
                    image_dims(#[trigger] self@[i]),
                    max_width,
                    max_height,
                ),
    {
        let n = self.images.len();
        let mut i: usize = 0;
        while i < n
            invariant
                0 <= i <= n,
                n == self@.len(),
                forall|j: int|
                    0 <= j < i ==> resize_fits(image_dims(#[trigger] self@[j]), max_width, max_height),
            decreases n - i,
        {
            let (width, height) = dimensions(&self.images[i]);
            let (new_width, new_height) = fitted_size(width, height, max_width, max_height);
            let limit = usize::MAX as u128;
            proof {
                lemma_u32_product_bound(width, new_height);
                lemma_u32_product_bound(new_width, new_height);
            }
            let source_rows = (width as u128) * (new_height as u128);
            let target = (new_width as u128) * (new_height as u128);
            if source_rows * 4 > limit || target * 4 > limit {
                return false;
            }
            i = i + 1;
        }
        true
    }

    /// Encodes every image as JPEG at `quality` and returns their base64 data
    /// URIs in order; fails on the first image that cannot be encoded, and
    /// then returns no partial result. The quality is handed to the encoder
    /// as it is; the encoder clamps it to `1..=100`.
    pub fn encode_as_jpeg(&self, quality: u8) -> (r: Result<Vec<String>, ProcessorError>)
        ensures
            r is Ok == forall|i: int|
                0 <= i < self@.len() ==> (#[trigger] jpeg_encoding(self@[i], quality)) is Some,
            match r {
                Ok(uris) => {
                    &&& uris@.len() == self@.len()
                    &&& forall|i: int|
                        0 <= i < self@.len() ==> (#[trigger] uris@[i])@ == jpeg_uri(
                            jpeg_encoding(self@[i], quality)->Some_0,
                        )
                },
                Err(e) => e is EncodeError,
            },
    {
        let mut uris: Vec<String> = Vec::new();
        let n = self.images.len();
        let mut i: usize = 0;
        while i < n
            invariant
                0 <= i <= n,
                n == self@.len(),
                uris@.len() == i,
                forall|j: int| 0 <= j < i ==> (#[trigger] jpeg_encoding(self@[j], quality)) is Some,
                forall|j: int|
                    0 <= j < i ==> (#[trigger] uris@[j])@ == jpeg_uri(
                        jpeg_encoding(self@[j], quality)->Some_0,
                    ),
            decreases n - i,
        {
            let jpeg = match encode_jpeg(&self.images[i], quality) {
                Ok(b) => b,
                Err(e) => return Err(ProcessorError::EncodeError(e)),
            };
            let text = encode_base64(jpeg.as_slice());
            let uri = jpeg_data_uri(text.as_str());
            uris.push(uri);
            i = i + 1;
        }
        Ok(uris)
    }

    /// The number of images held.
    pub fn image_count(&self) -> (r: usize)
        ensures
            r == self@.len(),
    {
        self.images.len()
    }

    /// The size of every image, in order, as `"{width}x{height}"`.
    pub fn get_image_sizes(&self) -> (r: Vec<String>)
        ensures
            r@.len() == self@.len(),
            forall|i: int|
                0 <= i < self@.len() ==> (#[trigger] r@[i])@ == size_label(
                    image_dims(self@[i]).0,
                    image_dims(self@[i]).1,
                ),
    {
        let mut labels: Vec<String> = Vec::new();
        let n = self.images.len();
        let mut i: usize = 0;
        while i < n
            invariant
                0 <= i <= n,
                n == self@.len(),
                labels@.len() == i,
                forall|j: int|
                    0 <= j < i ==> (#[trigger] labels@[j])@ == size_label(
                        image_dims(self@[j]).0,
                        image_dims(self@[j]).1,
                    ),
            decreases n - i,
        {
            let (width, height) = dimensions(&self.images[i]);
            labels.push(size_label_of(width, height));
            i = i + 1;
        }
        labels
    }
}

} // verus!
