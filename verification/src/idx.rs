use vstd::prelude::*;

use crate::error::FormatError;
use crate::error::LoadError;

verus! {

/// Magic number opening an IDX label file.
pub const LABEL_MAGIC_NUMBER: u32 = 2049;

/// Magic number opening an IDX image file.
pub const IMAGE_MAGIC_NUMBER: u32 = 2051;

/// The big-endian 32-bit integer stored at byte offset `i` of `s`.
pub open spec fn be_u32(s: Seq<u8>, i: int) -> int
    recommends
        0 <= i,
        i + 4 <= s.len(),
{
    (s[i] as int) * 0x100_0000 + (s[i + 1] as int) * 0x1_0000 + (s[i + 2] as int) * 0x100 + (
    s[i + 3] as int)
}

/// A structurally valid label file: the magic number, a count `N`, and then
/// exactly `N` label bytes.
pub open spec fn valid_label_file(s: Seq<u8>) -> bool {
    &&& s.len() >= 8
    &&& be_u32(s, 0) == LABEL_MAGIC_NUMBER
    &&& s.len() - 8 == be_u32(s, 4)
}

/// The labels held by a label file: every byte after the 8-byte header.
pub open spec fn labels_of(s: Seq<u8>) -> Seq<u8>
    recommends
        s.len() >= 8,
{
    s.subrange(8, s.len() as int)
}

/// The error a malformed label file is rejected with: a missing or wrong
/// magic number takes precedence over a count mismatch.
pub open spec fn label_error(s: Seq<u8>) -> FormatError {
    if !(s.len() >= 4 && be_u32(s, 0) == LABEL_MAGIC_NUMBER) {
        FormatError::WrongMagic
    } else {
        FormatError::WrongItemCount
    }
}

/// The item count declared by an image file's header.
pub open spec fn image_count(s: Seq<u8>) -> int {
    be_u32(s, 4)
}

/// The row count declared by an image file's header.
pub open spec fn rows_of(s: Seq<u8>) -> int {
    be_u32(s, 8)
}

/// The column count declared by an image file's header.
pub open spec fn cols_of(s: Seq<u8>) -> int {
    be_u32(s, 12)
}

/// A structurally valid image file: the magic number, counts `N`, `R`, `C`,
/// and then exactly `N * R * C` pixel bytes.
pub open spec fn valid_image_file(s: Seq<u8>) -> bool {
    &&& s.len() >= 16
    &&& be_u32(s, 0) == IMAGE_MAGIC_NUMBER
    &&& s.len() - 16 == image_count(s) * rows_of(s) * cols_of(s)
}

/// The pixel bytes of the `k`-th image held by a valid image file.
pub open spec fn image_chunk(s: Seq<u8>, k: int) -> Seq<u8>
    recommends
        valid_image_file(s),
        0 <= k < image_count(s),
{
    s.subrange(16 + k * (rows_of(s) * cols_of(s)), 16 + (k + 1) * (rows_of(s) * cols_of(s)))
}

/// The error a malformed image file is rejected with.
pub open spec fn image_error(s: Seq<u8>) -> FormatError {
    if !(s.len() >= 4 && be_u32(s, 0) == IMAGE_MAGIC_NUMBER) {
        FormatError::WrongMagic
    } else {
        FormatError::WrongItemCount
    }
}

/// One decoded grayscale image: `rows * cols` pixel bytes, row-major.
#[derive(Debug)]
pub struct Image {
    pub rows: u32,
    pub cols: u32,
    pub data: Vec<u8>,
}

impl Image {
    /// The pixel buffer holds exactly `rows * cols` bytes.
    pub open spec fn wf(self) -> bool {
        self.data@.len() == (self.rows as int) * (self.cols as int)
    }
}

/// `images` is exactly the decoded content of the image file `s`: the declared
/// number of images, each carrying the declared dimensions and its own
/// contiguous pixel slice, in file order.
pub open spec fn decoded_images(images: Seq<Image>, s: Seq<u8>) -> bool {
    &&& images.len() == image_count(s)
    &&& forall|k: int|
        0 <= k < images.len() ==> {
            &&& (#[trigger] images[k]).rows == rows_of(s)
            &&& images[k].cols == cols_of(s)
            &&& images[k].data@ == image_chunk(s, k)
        }
}

/// Reads the big-endian 32-bit integer at byte offset `offset`.
pub fn read_be_u32(data: &Vec<u8>, offset: usize) -> (r: u32)
    requires
        offset + 4 <= data@.len(),
    ensures
        r as int == be_u32(data@, offset as int),
{
    let len = data.len();
    assert(offset + 4 <= len);
    let b0 = data[offset] as u32;
    let b1 = data[offset + 1] as u32;
    let b2 = data[offset + 2] as u32;
    let b3 = data[offset + 3] as u32;
    b0 * 0x100_0000 + b1 * 0x1_0000 + b2 * 0x100 + b3
}

/// The four decoded dataset parts; index `i` of an image sequence is paired
/// with index `i` of its label sequence.
#[derive(Debug)]
pub struct MINIST {
    pub train_images: Vec<Image>,
    pub train_labels: Vec<u8>,
    pub test_images: Vec<Image>,
    pub test_labels: Vec<u8>,
}

impl MINIST {
    /// Images and labels are paired by position, and every image holds
    /// exactly as many pixels as its dimensions declare.
    pub open spec fn wf(self) -> bool {
        &&& self.train_images@.len() == self.train_labels@.len()
        &&& self.test_images@.len() == self.test_labels@.len()
        &&& forall|k: int|
            0 <= k < self.train_images@.len() ==> (#[trigger] self.train_images@[k]).wf()
        &&& forall|k: int|
            0 <= k < self.test_images@.len() ==> (#[trigger] self.test_images@[k]).wf()
    }

    /// The four raw files assemble into a dataset: each is structurally
    /// valid, and each image file declares as many items as its label file.
    pub open spec fn loadable(ti: Seq<u8>, tl: Seq<u8>, vi: Seq<u8>, vl: Seq<u8>) -> bool {
        &&& valid_image_file(ti)
        &&& valid_label_file(tl)
        &&& valid_image_file(vi)
        &&& valid_label_file(vl)
        &&& image_count(ti) == labels_of(tl).len()
        &&& image_count(vi) == labels_of(vl).len()
    }

    /// The error assembly fails with: the first malformed file in the order
    /// train images, train labels, test images, test labels, and otherwise a
    /// count mismatch between a paired image and label file.
    pub open spec fn load_error(ti: Seq<u8>, tl: Seq<u8>, vi: Seq<u8>, vl: Seq<u8>) -> LoadError {
        if !valid_image_file(ti) {
            LoadError::Format(image_error(ti))
        } else if !valid_label_file(tl) {
            LoadError::Format(label_error(tl))
        } else if !valid_image_file(vi) {
            LoadError::Format(image_error(vi))
        } else if !valid_label_file(vl) {
            LoadError::Format(label_error(vl))
        } else {
            LoadError::Format(FormatError::WrongItemCount)
        }
    }

    /// Decodes a label file: checks the magic number, then that exactly the
    /// declared number of label bytes follows the header, and returns those
    /// bytes in order.
    pub fn parse_labels(data: &Vec<u8>) -> (r: Result<Vec<u8>, FormatError>)
        ensures
            r is Ok <==> valid_label_file(data@),
            r matches Ok(labels) ==> labels@ == labels_of(data@),
            r matches Err(e) ==> e == label_error(data@),
    {
        if data.len() < 4 || read_be_u32(data, 0) != LABEL_MAGIC_NUMBER {
            return Err(FormatError::WrongMagic);
        }
        if data.len() < 8 {
            return Err(FormatError::WrongItemCount);
        }
        let num_items = read_be_u32(data, 4);
        if data.len() - 8 != num_items as usize {
            return Err(FormatError::WrongItemCount);
        }
        let mut labels: Vec<u8> = Vec::new();
        let mut i: usize = 8;
        while i < data.len()
            invariant
                8 <= i <= data@.len(),
                labels@ == data@.subrange(8, i as int),
            decreases data@.len() - i,
        {
            labels.push(data[i]);
            proof {
                assert(data@.subrange(8, i as int + 1) =~= data@.subrange(8, i as int).push(
                    data@[i as int]));
            }
            i = i + 1;
        }
        Ok(labels)
    }

    /// Decodes an image file: checks the magic number, then that exactly
    /// `N * R * C` pixel bytes follow the header, and partitions them into
    /// `N` images of `R * C` bytes each.
    pub fn parse_images(data: &Vec<u8>) -> (r: Result<Vec<Image>, FormatError>)
        ensures
            r is Ok <==> valid_image_file(data@),
            r matches Ok(images) ==> {
                &&& decoded_images(images@, data@)
                &&& forall|k: int| 0 <= k < images@.len() ==> (#[trigger] images@[k]).wf()
            },
            r matches Err(e) ==> e == image_error(data@),
    {
        if data.len() < 4 || read_be_u32(data, 0) != IMAGE_MAGIC_NUMBER {
            return Err(FormatError::WrongMagic);
        }
        if data.len() < 16 {
            return Err(FormatError::WrongItemCount);
        }
        let num_items = read_be_u32(data, 4);
        let num_rows = read_be_u32(data, 8);
        let num_cols = read_be_u32(data, 12);
        let body_len = data.len() - 16;

        proof {
            vstd::arithmetic::mul::lemma_mul_upper_bound(
                num_items as int,
                0xffff_ffff,
                num_rows as int,
                0xffff_ffff,
            );
            vstd::arithmetic::mul::lemma_mul_upper_bound(
                (num_items as int) * (num_rows as int),
                0xffff_ffffint * 0xffff_ffff,
                num_cols as int,
                0xffff_ffff,
            );
        }
        let total: u128 = (num_items as u128) * (num_rows as u128) * (num_cols as u128);
        if total != body_len as u128 {
            return Err(FormatError::WrongItemCount);
        }
        proof {
            vstd::arithmetic::mul::lemma_mul_is_associative(
                num_items as int,
                num_rows as int,
                num_cols as int,
            );
        }

        let mut images: Vec<Image> = Vec::new();
        if num_items == 0 {
            return Ok(images);
        }

        proof {
            assert((num_rows as int) * (num_cols as int) <= body_len as int) by (nonlinear_arith)
                requires
                    1 <= num_items as int,
                    body_len as int == (num_items as int) * (num_rows as int) * (num_cols as int),
            ;
        }
        let ppi: usize = (num_rows as usize) * (num_cols as usize);
        let n = num_items as usize;
        let mut idx: usize = 0;
        let mut off: usize = 16;
        while idx < n
            invariant
                n == num_items as int,
                ppi == (num_rows as int) * (num_cols as int),
                data@.len() == 16 + (num_items as int) * (ppi as int),
                data@.len() <= usize::MAX,
                idx <= n,
                off == 16 + idx as int * ppi as int,
                images@.len() == idx,
                forall|k: int|
                    0 <= k < idx as int ==> {
                        &&& (#[trigger] images@[k]).rows == num_rows
                        &&& images@[k].cols == num_cols
                        &&& images@[k].data@ == data@.subrange(
                            16 + k * ppi as int,
                            16 + (k + 1) * ppi as int,
                        )
                    },
            decreases n - idx,
        {
            proof {
                vstd::arithmetic::mul::lemma_mul_inequality(idx as int + 1, n as int, ppi as int);
                assert((idx as int + 1) * (ppi as int) == idx as int * ppi as int + ppi as int)
                    by (nonlinear_arith);
            }
            let mut chunk: Vec<u8> = Vec::new();
            let mut j: usize = 0;
            while j < ppi
                invariant
                    j <= ppi,
                    off + ppi <= data@.len(),
                    data@.len() <= usize::MAX,
                    chunk@ == data@.subrange(off as int, off as int + j as int),
                decreases ppi - j,
            {
                chunk.push(data[off + j]);
                proof {
                    assert(data@.subrange(off as int, off as int + j as int + 1)
                        =~= data@.subrange(off as int, off as int + j as int).push(
                        data@[off as int + j as int]));
                }
                j = j + 1;
            }
            images.push(Image { rows: num_rows, cols: num_cols, data: chunk });
            off = off + ppi;
            idx = idx + 1;
            proof {
                assert((idx as int) * (ppi as int) == (idx as int - 1) * (ppi as int) + ppi as int)
                    by (nonlinear_arith);
            }
        }
        proof {
            assert forall|k: int| 0 <= k < images@.len() implies {
                &&& (#[trigger] images@[k]).rows == rows_of(data@)
                &&& images@[k].cols == cols_of(data@)
                &&& images@[k].data@ == image_chunk(data@, k)
                &&& images@[k].wf()
            } by {
                vstd::arithmetic::mul::lemma_mul_inequality(k + 1, n as int, ppi as int);
                assert(k * (ppi as int) >= 0) by (nonlinear_arith)
                    requires
                        k >= 0,
                        ppi as int >= 0,
                ;
                assert((k + 1) * (ppi as int) == k * (ppi as int) + ppi as int) by (nonlinear_arith);
            }
        }
        Ok(images)
    }

    /// Assembles a dataset from the contents of the four raw files, in the
    /// order train images, train labels, test images, test labels. Each file
    /// is decoded by the IDX parser; a malformed file aborts the whole
    /// assembly, and a count disagreement between a paired image and label
    /// file is rejected as a count mismatch, so that the returned dataset
    /// always pairs every image with a label.
    pub fn new(
        train_images_data: &Vec<u8>,
        train_labels_data: &Vec<u8>,
        test_images_data: &Vec<u8>,
        test_labels_data: &Vec<u8>,
    ) -> (r: Result<MINIST, LoadError>)
        ensures
            r is Ok <==> Self::loadable(
                train_images_data@,
                train_labels_data@,
                test_images_data@,
                test_labels_data@,
            ),
            r matches Ok(d) ==> {
                &&& d.wf()
                &&& decoded_images(d.train_images@, train_images_data@)
                &&& d.train_labels@ == labels_of(train_labels_data@)
                &&& decoded_images(d.test_images@, test_images_data@)
                &&& d.test_labels@ == labels_of(test_labels_data@)
            },
            r matches Err(e) ==> e == Self::load_error(
                train_images_data@,
                train_labels_data@,
                test_images_data@,
                test_labels_data@,
            ),
    {
        let train_images = match Self::parse_images(train_images_data) {
            Ok(v) => v,
            Err(e) => {
                return Err(LoadError::Format(e));
            },
        };
        let train_labels = match Self::parse_labels(train_labels_data) {
            Ok(v) => v,
            Err(e) => {
                return Err(LoadError::Format(e));
            },
        };
        let test_images = match Self::parse_images(test_images_data) {
            Ok(v) => v,
            Err(e) => {
                return Err(LoadError::Format(e));
            },
        };
        let test_labels = match Self::parse_labels(test_labels_data) {
            Ok(v) => v,
            Err(e) => {
                return Err(LoadError::Format(e));
            },
        };
        if train_images.len() != train_labels.len() || test_images.len() != test_labels.len() {
            return Err(LoadError::Format(FormatError::WrongItemCount));
        }
        Ok(MINIST { train_images, train_labels, test_images, test_labels })
    }
}

/// The four bytes of the big-endian encoding of `x`, most significant first.
pub open spec fn be_bytes_of(x: u32) -> Seq<u8> {
    seq![
        ((x >> 24) & 0xff) as u8,
        ((x >> 16) & 0xff) as u8,
        ((x >> 8) & 0xff) as u8,
        (x & 0xff) as u8,
    ]
}

/// The documented label-file layout wrapped around `labels`.
pub open spec fn encode_labels(labels: Seq<u8>) -> Seq<u8>
    recommends
        labels.len() < 0x1_0000_0000,
{
    be_bytes_of(LABEL_MAGIC_NUMBER) + be_bytes_of(labels.len() as u32) + labels
}

/// The pixel bytes of all images laid end to end, in order.
pub open spec fn concat_images(imgs: Seq<Seq<u8>>) -> Seq<u8>
    decreases imgs.len(),
{
    if imgs.len() == 0 {
        Seq::empty()
    } else {
        imgs[0] + concat_images(imgs.drop_first())
    }
}

/// The documented image-file layout wrapped around the pixel bytes of `imgs`.
pub open spec fn encode_images(rows: u32, cols: u32, imgs: Seq<Seq<u8>>) -> Seq<u8>
    recommends
        imgs.len() < 0x1_0000_0000,
{
    be_bytes_of(IMAGE_MAGIC_NUMBER) + be_bytes_of(imgs.len() as u32) + be_bytes_of(rows)
        + be_bytes_of(cols) + concat_images(imgs)
}

/// Reading a big-endian 32-bit integer back from its four encoded bytes
/// yields the integer encoded.
pub proof fn lemma_be_bytes_roundtrip(x: u32, s: Seq<u8>, i: int)
    requires
        0 <= i,
        i + 4 <= s.len(),
        s[i] == be_bytes_of(x)[0],
        s[i + 1] == be_bytes_of(x)[1],
        s[i + 2] == be_bytes_of(x)[2],
        s[i + 3] == be_bytes_of(x)[3],
    ensures
        be_u32(s, i) == x,
{
    assert((((x >> 24) & 0xff) as u8) as int * 0x100_0000 + (((x >> 16) & 0xff) as u8) as int
        * 0x1_0000 + (((x >> 8) & 0xff) as u8) as int * 0x100 + ((x & 0xff) as u8) as int
        == x as int) by (bit_vector);
}

proof fn lemma_concat_images_len(imgs: Seq<Seq<u8>>, l: int)
    requires
        forall|k: int| 0 <= k < imgs.len() ==> (#[trigger] imgs[k]).len() == l,
    ensures
        concat_images(imgs).len() == imgs.len() * l,
    decreases imgs.len(),
{
    if imgs.len() == 0 {
        assert(0int * l == 0) by (nonlinear_arith);
    } else {
        lemma_concat_images_len(imgs.drop_first(), l);
        assert((imgs.len() as int) * l == (imgs.len() - 1) * l + l) by (nonlinear_arith);
    }
}

proof fn lemma_concat_images_chunk(imgs: Seq<Seq<u8>>, l: int, k: int)
    requires
        forall|m: int| 0 <= m < imgs.len() ==> (#[trigger] imgs[m]).len() == l,
        0 <= k < imgs.len(),
    ensures
        concat_images(imgs).subrange(k * l, (k + 1) * l) == imgs[k],
    decreases k,
{
    lemma_concat_images_len(imgs, l);
    vstd::arithmetic::mul::lemma_mul_inequality(k + 1, imgs.len() as int, l);
    assert((k + 1) * l == k * l + l) by (nonlinear_arith);
    if k == 0 {
        assert(concat_images(imgs).subrange(0 * l, (0 + 1) * l) =~= imgs[0]);
    } else {
        lemma_concat_images_chunk(imgs.drop_first(), l, k - 1);
        assert(k * l - l == (k - 1) * l) by (nonlinear_arith);
        vstd::arithmetic::mul::lemma_mul_inequality(1, k, l);
        assert(concat_images(imgs).subrange(k * l, (k + 1) * l) =~= concat_images(
            imgs.drop_first(),
        ).subrange((k - 1) * l, k * l));
    }
}

/// Round trip for label files: a synthetic label sequence, encoded with the
/// documented layout, is a valid label file that decodes back to exactly the
/// same labels.
pub proof fn lemma_label_round_trip(labels: Seq<u8>)
    requires
        labels.len() < 0x1_0000_0000,
    ensures
        valid_label_file(encode_labels(labels)),
        labels_of(encode_labels(labels)) == labels,
{
    let f = encode_labels(labels);
    lemma_be_bytes_roundtrip(LABEL_MAGIC_NUMBER, f, 0);
    lemma_be_bytes_roundtrip(labels.len() as u32, f, 4);
    assert(labels_of(f) =~= labels);
}

/// Round trip for image files: synthetic images of uniform dimensions,
/// encoded with the documented layout, form a valid image file that decodes
/// back to exactly the same count, dimensions and pixel bytes.
pub proof fn lemma_image_round_trip(rows: u32, cols: u32, imgs: Seq<Seq<u8>>)
    requires
        imgs.len() < 0x1_0000_0000,
        forall|k: int|
            0 <= k < imgs.len() ==> (#[trigger] imgs[k]).len() == (rows as int) * (cols as int),
    ensures
        valid_image_file(encode_images(rows, cols, imgs)),
        image_count(encode_images(rows, cols, imgs)) == imgs.len(),
        rows_of(encode_images(rows, cols, imgs)) == rows,
        cols_of(encode_images(rows, cols, imgs)) == cols,
        forall|k: int|
            0 <= k < imgs.len() ==> image_chunk(encode_images(rows, cols, imgs), k) == imgs[k],
{
    let f = encode_images(rows, cols, imgs);
    let l = (rows as int) * (cols as int);
    lemma_concat_images_len(imgs, l);
    lemma_be_bytes_roundtrip(IMAGE_MAGIC_NUMBER, f, 0);
    lemma_be_bytes_roundtrip(imgs.len() as u32, f, 4);
    lemma_be_bytes_roundtrip(rows, f, 8);
    lemma_be_bytes_roundtrip(cols, f, 12);
    vstd::arithmetic::mul::lemma_mul_is_associative(imgs.len() as int, rows as int, cols as int);
    assert forall|k: int| 0 <= k < imgs.len() implies image_chunk(f, k) == imgs[k] by {
        lemma_concat_images_chunk(imgs, l, k);
        vstd::arithmetic::mul::lemma_mul_inequality(k + 1, imgs.len() as int, l);
        assert(k * l >= 0) by (nonlinear_arith)
            requires
                k >= 0,
                l >= 0,
        ;
        assert((k + 1) * l == k * l + l) by (nonlinear_arith);
        assert(f.subrange(16 + k * l, 16 + (k + 1) * l) =~= concat_images(imgs).subrange(
            k * l,
            (k + 1) * l,
        ));
    }
}

} // verus!
