//! Fixed-channel (RGBA) pixel store with linear indexing.
//!
//! Invariant: the pixel buffer always holds exactly `width * height`
//! four-channel pixels, and a pixel's linear index is `y * width + x`.

use vstd::prelude::*;
use vstd::string::StringExecFns;

verus! {

/// The decimal digit character for `d` in `0 .. 10`.
pub open spec fn decimal_digit(d: int) -> char {
    if d == 0 {
        '0'
    } else if d == 1 {
        '1'
    } else if d == 2 {
        '2'
    } else if d == 3 {
        '3'
    } else if d == 4 {
        '4'
    } else if d == 5 {
        '5'
    } else if d == 6 {
        '6'
    } else if d == 7 {
        '7'
    } else if d == 8 {
        '8'
    } else {
        '9'
    }
}

/// The decimal numeral of `n`, most significant digit first.
pub open spec fn decimal_seq(n: int) -> Seq<char>
    recommends
        0 <= n,
    decreases n,
{
    if n < 10 {
        seq![decimal_digit(n)]
    } else {
        decimal_seq(n / 10).push(decimal_digit(n % 10))
    }
}

/// The report built when two images being compared disagree in size.
pub open spec fn dimension_mismatch_message(width: u32, height: u32) -> Seq<char> {
    "Dimension mismatch: "@ + decimal_seq(width as int) + ","@ + decimal_seq(height as int)
}

/// One four-channel (RGBA) pixel.
#[derive(Clone, Copy)]
pub struct Pixel<T> {
    pub data: [T; 4],
}

/// A `width x height` RGBA image as a flat pixel buffer,
/// indexed by `index = y * width + x`.
#[derive(Clone)]
pub struct Image {
    pub width: u32,
    pub height: u32,
    pub chan: u32,
    pub data: Vec<Pixel<u8>>,
}

impl Image {
    /// Well-formedness: the buffer length always equals `width * height`.
    pub open spec fn wf(self) -> bool {
        self.data@.len() == self.width as int * self.height as int
    }

    pub fn new(width: u32, height: u32, chan: u32) -> (image: Image)
        requires
            width as int * height as int <= usize::MAX as int,
        ensures
            image.wf(),
            image.width == width,
            image.height == height,
            image.chan == chan,
            forall|i: int| 0 <= i < image.data@.len() ==> image.data@[i].data@ =~= seq![0u8, 0u8, 0u8, 0u8],
    {
        let data = Image::create_buffer(width, height);
        Image { width, height, chan, data }
    }

    fn create_buffer(width: u32, height: u32) -> (data: Vec<Pixel<u8>>)
        requires
            width as int * height as int <= usize::MAX as int,
        ensures
            data@.len() == width as int * height as int,
            forall|i: int| 0 <= i < data@.len() ==> data@[i].data@ =~= seq![0u8, 0u8, 0u8, 0u8],
    {
        let size: usize = (width as usize) * (height as usize);
        let mut data: Vec<Pixel<u8>> = Vec::new();
        let mut index: usize = 0;
        while index < size
            invariant
                index <= size,
                data@.len() == index,
                forall|i: int| 0 <= i < index ==> data@[i].data@ =~= seq![0u8, 0u8, 0u8, 0u8],
            decreases size - index,
        {
            data.push(Pixel { data: [0u8, 0u8, 0u8, 0u8] });
            index += 1;
        }
        data
    }

    /// Builds an image whose pixels are read off a flat byte buffer,
    /// four consecutive bytes per pixel.
    pub fn from_vec(width: u32, height: u32, chan: u32, source: Vec<u8>) -> (image: Image)
        requires
            1 <= (width as int) * (height as int),
            4 * ((width as int) * (height as int)) <= source@.len(),
        ensures
            image.wf(),
            image.width == width,
            image.height == height,
            image.chan == chan,
            forall|i: int, c: int|
                0 <= i < (width as int) * (height as int) && 0 <= c < 4
                    ==> #[trigger] image.data@[i].data@[c] == source@[4 * i + c],
    {
        // Calling `len` puts the buffer's length bound in scope for the
        // overflow reasoning below.
        let _source_len: usize = source.len();
        proof {
            assert((width as int) * (height as int) <= usize::MAX as int) by (nonlinear_arith)
                requires
                    4 * ((width as int) * (height as int)) <= source@.len(),
                    source@.len() <= usize::MAX as int,
            ;
        }
        let mut data = Image::create_buffer(width, height);
        let size: usize = data.len();
        let mut index: usize = 0;
        while index < size
            invariant
                index <= size,
                size == data@.len(),
                size == (width as int) * (height as int),
                4 * (size as int) <= source@.len(),
                source@.len() <= usize::MAX as int,
                forall|i: int, c: int|
                    0 <= i < index && 0 <= c < 4
                        ==> #[trigger] data@[i].data@[c] == source@[4 * i + c],
            decreases size - index,
        {
            let linear_index: usize = 4 * index;
            data[index] = Pixel {
                data: [
                    source[linear_index],
                    source[linear_index + 1],
                    source[linear_index + 2],
                    source[linear_index + 3],
                ],
            };
            index += 1;
        }
        Image { width, height, chan, data }
    }

    /// Flattens the pixel buffer into one byte per channel,
    /// four consecutive bytes per pixel.
    pub fn as_flat_vec_u8(&self) -> (flat: Vec<u8>)
        ensures
            flat@.len() == 4 * self.data@.len(),
            forall|i: int, c: int|
                0 <= i < self.data@.len() && 0 <= c < 4
                    ==> flat@[4 * i + c] == #[trigger] self.data@[i].data@[c],
    {
        let mut flat: Vec<u8> = Vec::new();
        let size: usize = self.data.len();
        let mut index: usize = 0;
        while index < size
            invariant
                index <= size,
                size == self.data@.len(),
                flat@.len() == 4 * index,
                forall|i: int, c: int|
                    0 <= i < index && 0 <= c < 4
                        ==> flat@[4 * i + c] == #[trigger] self.data@[i].data@[c],
            decreases size - index,
        {
            let pixel = &self.data[index];
            flat.push(pixel.data[0]);
            flat.push(pixel.data[1]);
            flat.push(pixel.data[2]);
            flat.push(pixel.data[3]);
            index += 1;
            proof {
                assert(flat@[4 * (index - 1) + 0] == self.data@[index - 1].data@[0]);
                assert(flat@[4 * (index - 1) + 1] == self.data@[index - 1].data@[1]);
                assert(flat@[4 * (index - 1) + 2] == self.data@[index - 1].data@[2]);
                assert(flat@[4 * (index - 1) + 3] == self.data@[index - 1].data@[3]);
            }
        }
        flat
    }

    pub fn size(&self) -> (size: usize)
        ensures
            size == self.data@.len(),
    {
        self.data.len()
    }

    /// Splits a linear buffer index into pixel coordinates `(x, y)`
    /// with `index == y * width + x`.
    pub fn pixel_coordinate(width: u32, index: usize) -> (coord: (u32, u32))
        requires
            width > 0,
            (index as int) < (width as int) * 0x1_0000_0000,
        ensures
            coord.0 < width,
            coord.0 as int == index as int % width as int,
            coord.1 as int == index as int / width as int,
            coord.1 as int * width as int + coord.0 as int == index as int,
    {
        let stride: usize = width as usize;
        let y: usize = index / stride;
        proof {
            vstd::arithmetic::div_mod::lemma_fundamental_div_mod(index as int, stride as int);
            vstd::arithmetic::div_mod::lemma_mod_division_less_than_divisor(
                index as int,
                stride as int,
            );
            assert(index as int == (stride as int) * (y as int) + (index as int) % (stride as int));
            assert(0 <= (index as int) % (stride as int) < stride as int);
            assert((y as int) * (stride as int) <= index as int);
            assert((index as int) / (width as int) < 0x1_0000_0000) by (nonlinear_arith)
                requires
                    width > 0,
                    (index as int) < (width as int) * 0x1_0000_0000,
            ;
        }
        let x: usize = index - y * stride;
        (x as u32, y as u32)
    }

    /// Splits a linear index into this image's buffer into `(x, y)`.
    pub fn get_pixel_coordinate(&self, index: usize) -> (coord: (u32, u32))
        requires
            self.wf(),
            self.width > 0,
            index < self.data@.len(),
        ensures
            coord.0 < self.width,
            coord.1 < self.height,
            coord.0 as int == index as int % self.width as int,
            coord.1 as int == index as int / self.width as int,
            coord.1 as int * self.width as int + coord.0 as int == index as int,
    {
        proof {
            assert((index as int) / (self.width as int) < self.height as int
                && (index as int) < (self.width as int) * 0x1_0000_0000) by (nonlinear_arith)
                requires
                    self.width > 0,
                    self.height < 0x1_0000_0000,
                    (index as int) < (self.width as int) * (self.height as int),
            ;
        }
        Image::pixel_coordinate(self.width, index)
    }

    /// Reads channel `c` of the pixel at `(x, y)`.
    pub fn get_value(&self, x: u32, y: u32, c: u32) -> (value: u8)
        requires
            self.wf(),
            x < self.width,
            y < self.height,
            c < 4,
        ensures
            value == self.data@[y as int * self.width as int + x as int].data@[c as int],
    {
        let len: usize = self.data.len();
        proof {
            assert((y as int) * (self.width as int) + (x as int) < (self.width as int)
                * (self.height as int)) by (nonlinear_arith)
                requires
                    x < self.width,
                    y < self.height,
            ;
            assert((y as int) * (self.width as int) + (x as int) < len as int);
        }
        let index: usize = (y as usize) * (self.width as usize) + (x as usize);
        let pixel = &self.data[index];
        pixel.data[c as usize]
    }

    /// Overwrites the pixel at linear index `index`.
    pub fn set_pixel(&mut self, index: usize, color: [u8; 4])
        requires
            index < old(self).data@.len(),
        ensures
            final(self).data@ == old(self).data@.update(index as int, (Pixel { data: color })),
            final(self).width == old(self).width,
            final(self).height == old(self).height,
            final(self).chan == old(self).chan,
            old(self).wf() ==> final(self).wf(),
    {
        self.data[index] = Pixel { data: color };
    }
}

fn decimal_digit_str(d: u32) -> (s: &'static str)
    requires
        d < 10,
    ensures
        s@ == seq![decimal_digit(d as int)],
{
    if d == 0 {
        proof {
            reveal_strlit("0");
            assert("0"@ =~= seq![decimal_digit(d as int)]);
        }
        "0"
    } else if d == 1 {
        proof {
            reveal_strlit("1");
            assert("1"@ =~= seq![decimal_digit(d as int)]);
        }
        "1"
    } else if d == 2 {
        proof {
            reveal_strlit("2");
            assert("2"@ =~= seq![decimal_digit(d as int)]);
        }
        "2"
    } else if d == 3 {
        proof {
            reveal_strlit("3");
            assert("3"@ =~= seq![decimal_digit(d as int)]);
        }
        "3"
    } else if d == 4 {
        proof {
            reveal_strlit("4");
            assert("4"@ =~= seq![decimal_digit(d as int)]);
        }
        "4"
    } else if d == 5 {
        proof {
            reveal_strlit("5");
            assert("5"@ =~= seq![decimal_digit(d as int)]);
        }
        "5"
    } else if d == 6 {
        proof {
            reveal_strlit("6");
            assert("6"@ =~= seq![decimal_digit(d as int)]);
        }
        "6"
    } else if d == 7 {
        proof {
            reveal_strlit("7");
            assert("7"@ =~= seq![decimal_digit(d as int)]);
        }
        "7"
    } else if d == 8 {
        proof {
            reveal_strlit("8");
            assert("8"@ =~= seq![decimal_digit(d as int)]);
        }
        "8"
    } else {
        proof {
            reveal_strlit("9");
            assert("9"@ =~= seq![decimal_digit(d as int)]);
        }
        "9"
    }
}

/// Appends the decimal numeral of `n` to `s`.
fn push_decimal(s: &mut String, n: u32)
    ensures
        final(s)@ == old(s)@ + decimal_seq(n as int),
    decreases n,
{
    if n >= 10 {
        push_decimal(s, n / 10);
    }
    let digit = decimal_digit_str(n % 10);
    s.append(digit);
    proof {
        if n >= 10 {
            assert(decimal_seq(n as int) == decimal_seq(n as int / 10).push(
                decimal_digit(n as int % 10),
            ));
            assert(final(s)@ =~= old(s)@ + decimal_seq(n as int));
        } else {
            assert(decimal_seq(n as int) == seq![decimal_digit(n as int)]);
            assert(final(s)@ =~= old(s)@ + decimal_seq(n as int));
        }
    }
}

/// Checks that two images agree in width and height; on a mismatch it
/// reports the second image's dimensions.
pub fn dimensions_equal(first: &Image, second: &Image) -> (result: Result<bool, String>)
    ensures
        (first.width == second.width && first.height == second.height) <==> result is Ok,
        result matches Ok(same) ==> same == true,
        result matches Err(message) ==> message@ == dimension_mismatch_message(
            second.width,
            second.height,
        ),
{
    if first.width != second.width || first.height != second.height {
        let mut message = String::from_str("Dimension mismatch: ");
        push_decimal(&mut message, second.width);
        message.append(",");
        push_decimal(&mut message, second.height);
        proof {
            reveal_strlit(",");
            assert(message@ =~= dimension_mismatch_message(second.width, second.height));
        }
        return Err(message);
    }

    Ok(true)
}

/// The absolute difference of two channel values.
pub open spec fn abs_diff(a: u8, b: u8) -> int {
    if a >= b {
        a - b
    } else {
        b - a
    }
}

/// Compares two images of equal dimensions channel by channel and
/// returns a difference image: per pixel, the doubled red difference
/// (truncated to a byte), the green and blue differences, and a fully
/// opaque alpha. Images of different dimensions are reported as a
/// mismatch instead.
pub fn compute_channel_difference(first: &Image, second: &Image) -> (result: Result<
    Vec<u8>,
    String,
>)
    requires
        first.wf(),
        second.wf(),
        (first.width == second.width && first.height == second.height) ==> 1 <= first.data@.len(),
    ensures
        (first.width == second.width && first.height == second.height) <==> result is Ok,
        result matches Err(message) ==> message@ == dimension_mismatch_message(
            second.width,
            second.height,
        ),
        result matches Ok(diff) ==> {
            &&& diff@.len() == 4 * first.data@.len()
            &&& forall|i: int|
                #![trigger first.data@[i]]
                0 <= i < first.data@.len() ==> {
                    &&& diff@[4 * i + 0] as int == (2 * abs_diff(
                        first.data@[i].data@[0],
                        second.data@[i].data@[0],
                    )) % 256
                    &&& diff@[4 * i + 1] as int == abs_diff(
                        first.data@[i].data@[1],
                        second.data@[i].data@[1],
                    )
                    &&& diff@[4 * i + 2] as int == abs_diff(
                        first.data@[i].data@[2],
                        second.data@[i].data@[2],
                    )
                    &&& diff@[4 * i + 3] == 255u8
                }
        },
{
    match dimensions_equal(first, second) {
        Ok(_) => (),
        Err(message) => {
            return Err(message);
        },
    }

    let mut diff: Vec<u8> = Vec::new();
    let size: usize = first.data.len();
    let mut index: usize = 0;
    while index < size
        invariant
            index <= size,
            size == first.data@.len(),
            size == second.data@.len(),
            diff@.len() == 4 * index,
            forall|i: int|
                #![trigger first.data@[i]]
                0 <= i < index ==> {
                    &&& diff@[4 * i + 0] as int == (2 * abs_diff(
                        first.data@[i].data@[0],
                        second.data@[i].data@[0],
                    )) % 256
                    &&& diff@[4 * i + 1] as int == abs_diff(
                        first.data@[i].data@[1],
                        second.data@[i].data@[1],
                    )
                    &&& diff@[4 * i + 2] as int == abs_diff(
                        first.data@[i].data@[2],
                        second.data@[i].data@[2],
                    )
                    &&& diff@[4 * i + 3] == 255u8
                },
        decreases size - index,
    {
        let pa = &first.data[index];
        let pb = &second.data[index];
        let dr: u8 = if pa.data[0] >= pb.data[0] {
            pa.data[0] - pb.data[0]
        } else {
            pb.data[0] - pa.data[0]
        };
        let dg: u8 = if pa.data[1] >= pb.data[1] {
            pa.data[1] - pb.data[1]
        } else {
            pb.data[1] - pa.data[1]
        };
        let db: u8 = if pa.data[2] >= pb.data[2] {
            pa.data[2] - pb.data[2]
        } else {
            pb.data[2] - pa.data[2]
        };
        let doubled_red: u8 = ((2u32 * (dr as u32)) % 256) as u8;
        let ghost diff_before = diff@;
        diff.push(doubled_red);
        diff.push(dg);
        diff.push(db);
        diff.push(255u8);
        index += 1;
        proof {
            assert(diff@ =~= diff_before + seq![doubled_red, dg, db, 255u8]);
            assert forall|i: int| #![trigger first.data@[i]] 0 <= i < index implies {
                &&& diff@[4 * i + 0] as int == (2 * abs_diff(
                    first.data@[i].data@[0],
                    second.data@[i].data@[0],
                )) % 256
                &&& diff@[4 * i + 1] as int == abs_diff(
                    first.data@[i].data@[1],
                    second.data@[i].data@[1],
                )
                &&& diff@[4 * i + 2] as int == abs_diff(
                    first.data@[i].data@[2],
                    second.data@[i].data@[2],
                )
                &&& diff@[4 * i + 3] == 255u8
            } by {
                if i < index - 1 {
                    assert(diff@[4 * i + 0] == diff_before[4 * i + 0]);
                    assert(diff@[4 * i + 1] == diff_before[4 * i + 1]);
                    assert(diff@[4 * i + 2] == diff_before[4 * i + 2]);
                    assert(diff@[4 * i + 3] == diff_before[4 * i + 3]);
                } else {
                    assert(diff@[4 * i + 0] == doubled_red);
                    assert(diff@[4 * i + 1] == dg);
                    assert(diff@[4 * i + 2] == db);
                    assert(diff@[4 * i + 3] == 255u8);
                }
            }
        }
    }

    Ok(diff)
}

/// Round trip through the pixel store: an image whose pixels were read
/// off a flat byte buffer (as `from_vec` builds it) flattens back (as
/// `as_flat_vec_u8` does) to exactly the bytes it was built from.
pub proof fn lemma_from_vec_flat_round_trip(image: Image, source: Seq<u8>, flat: Seq<u8>)
    requires
        4 * image.data@.len() <= source.len(),
        forall|i: int, c: int|
            0 <= i < image.data@.len() && 0 <= c < 4
                ==> #[trigger] image.data@[i].data@[c] == source[4 * i + c],
        flat.len() == 4 * image.data@.len(),
        forall|i: int, c: int|
            0 <= i < image.data@.len() && 0 <= c < 4
                ==> flat[4 * i + c] == #[trigger] image.data@[i].data@[c],
    ensures
        flat =~= source.subrange(0, 4 * image.data@.len() as int),
{
    assert forall|k: int| 0 <= k < flat.len() implies flat[k] == source[k] by {
        let i: int = k / 4;
        let c: int = k % 4;
        vstd::arithmetic::div_mod::lemma_fundamental_div_mod(k, 4);
        vstd::arithmetic::div_mod::lemma_mod_division_less_than_divisor(k, 4);
        assert(k == 4 * i + c);
        assert(0 <= i < image.data@.len());
        assert(flat[4 * i + c] == image.data@[i].data@[c]);
        assert(image.data@[i].data@[c] == source[4 * i + c]);
    }
}

/// Linear indexing is a bijection between pixel coordinates and buffer
/// positions: for any coordinate inside a `width x height` image, the
/// index `y * width + x` lies inside the buffer, and splitting it the
/// way `pixel_coordinate` does gives back exactly `(x, y)`. Together
/// with `set_pixel`'s contract this shows that writing one pixel can
/// never disturb a neighbouring cell.
pub proof fn lemma_pixel_index_roundtrip(width: u32, height: u32, x: u32, y: u32)
    requires
        x < width,
        y < height,
    ensures
        0 <= (y as int) * (width as int) + (x as int) < (width as int) * (height as int),
        ((y as int) * (width as int) + (x as int)) % (width as int) == x as int,
        ((y as int) * (width as int) + (x as int)) / (width as int) == y as int,
{
    let w: int = width as int;
    let index: int = (y as int) * w + (x as int);
    assert(0 <= (y as int) * (width as int) + (x as int) < (width as int) * (height as int))
        by (nonlinear_arith)
        requires
            x < width,
            y < height,
    ;
    vstd::arithmetic::div_mod::lemma_fundamental_div_mod_converse_mod(index, w, y as int, x as int);
    vstd::arithmetic::div_mod::lemma_fundamental_div_mod_converse_div(index, w, y as int, x as int);
}

} // verus!
