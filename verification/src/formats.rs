//! Output formats and resampling filters, and parsing of their
//! case-sensitive names.

use vstd::prelude::*;

verus! {

use vstd::string::StringSliceAdditionalSpecFns;

/// An image format the pipeline can decode from and encode to.
#[derive(Clone, Copy, Debug, PartialEq, Eq, Structural)]
pub enum ImageFormat {
    PNG,
    JPEG,
}

/// A resampling filter for `resize`; `Lanczos3` when unspecified.
#[derive(Clone, Copy, Debug, PartialEq, Eq, Structural)]
pub enum FilterType {
    Nearest,
    Triangle,
    CatmullRom,
    Gaussian,
    Lanczos3,
}

impl ImageFormat {
    /// The MIME type of this format, as a byte string.
    pub open spec fn mime_spec(self) -> Seq<u8> {
        match self {
            ImageFormat::PNG => "image/png".spec_bytes(),
            ImageFormat::JPEG => "image/jpeg".spec_bytes(),
        }
    }

    /// The MIME type written into the response's content type.
    pub fn mime_type(&self) -> (r: &'static str)
        ensures
            r.spec_bytes() == self.mime_spec(),
    {
        match self {
            ImageFormat::PNG => "image/png",
            ImageFormat::JPEG => "image/jpeg",
        }
    }
}

/// Whether two byte strings are equal.
pub fn bytes_eq(a: &[u8], b: &[u8]) -> (r: bool)
    ensures
        r <==> a@ == b@,
{
    let n = a.len();
    if n != b.len() {
        proof {
            assert(a@.len() != b@.len());
        }
        return false;
    }
    let mut i: usize = 0;
    while i < n
        invariant
            i <= n,
            n == a@.len(),
            n == b@.len(),
            forall|j: int| 0 <= j < i ==> a@[j] == b@[j],
        decreases n - i,
    {
        if a[i] != b[i] {
            return false;
        }
        i += 1;
    }
    proof {
        assert(a@ =~= b@);
    }
    true
}

/// The name under which a format is selected.
pub open spec fn format_name(f: ImageFormat) -> Seq<u8> {
    match f {
        ImageFormat::PNG => "PNG".spec_bytes(),
        ImageFormat::JPEG => "JPEG".spec_bytes(),
    }
}

/// The name under which a filter is selected.
pub open spec fn filter_name(f: FilterType) -> Seq<u8> {
    match f {
        FilterType::Nearest => "Nearest".spec_bytes(),
        FilterType::Triangle => "Triangle".spec_bytes(),
        FilterType::CatmullRom => "CatmullRom".spec_bytes(),
        FilterType::Gaussian => "Gaussian".spec_bytes(),
        FilterType::Lanczos3 => "Lanczos3".spec_bytes(),
    }
}

/// Parses a format name from the case-sensitive set `PNG`, `JPEG`; any other
/// string is unrecognized.
pub fn image_format_from_string(s: &str) -> (r: Option<ImageFormat>)
    ensures
        match r {
            Some(f) => s.spec_bytes() == format_name(f),
            None => s.spec_bytes() != format_name(ImageFormat::PNG) && s.spec_bytes()
                != format_name(ImageFormat::JPEG),
        },
{
    let b = s.as_bytes();
    if bytes_eq(b, "PNG".as_bytes()) {
        Some(ImageFormat::PNG)
    } else if bytes_eq(b, "JPEG".as_bytes()) {
        Some(ImageFormat::JPEG)
    } else {
        None
    }
}

/// Parses a filter name from the case-sensitive set `Nearest`, `Triangle`,
/// `CatmullRom`, `Gaussian`, `Lanczos3`; any other string is unrecognized.
pub fn filter_type_from_string(s: &str) -> (r: Option<FilterType>)
    ensures
        match r {
            Some(f) => s.spec_bytes() == filter_name(f),
            None => forall|f: FilterType| s.spec_bytes() != filter_name(f),
        },
{
    let b = s.as_bytes();
    if bytes_eq(b, "Nearest".as_bytes()) {
        Some(FilterType::Nearest)
    } else if bytes_eq(b, "Triangle".as_bytes()) {
        Some(FilterType::Triangle)
    } else if bytes_eq(b, "CatmullRom".as_bytes()) {
        Some(FilterType::CatmullRom)
    } else if bytes_eq(b, "Gaussian".as_bytes()) {
        Some(FilterType::Gaussian)
    } else if bytes_eq(b, "Lanczos3".as_bytes()) {
        Some(FilterType::Lanczos3)
    } else {
        None
    }
}

/// Appends a byte string to a buffer.
fn push_all(out: &mut Vec<u8>, b: &[u8])
    ensures
        final(out)@ == old(out)@ + b@,
{
    let n = b.len();
    let mut i: usize = 0;
    while i < n
        invariant
            i <= n,
            n == b@.len(),
            out@ == old(out)@ + b@.take(i as int),
        decreases n - i,
    {
        let ghost prev = out@;
        out.push(b[i]);
        proof {
            assert(prev.push(b@[i as int]) =~= old(out)@ + b@.take(i + 1));
        }
        i += 1;
    }
    proof {
        assert(b@.take(n as int) =~= b@);
    }
}

/// The parse error for an unrecognized format name, naming the offending
/// value.
pub fn unknown_format_message(s: &str) -> (r: Vec<u8>)
    ensures
        r@ == "Unknown format: ".spec_bytes() + s.spec_bytes(),
{
    let mut out: Vec<u8> = Vec::new();
    push_all(&mut out, "Unknown format: ".as_bytes());
    push_all(&mut out, s.as_bytes());
    proof {
        assert(Seq::<u8>::empty() + "Unknown format: ".spec_bytes()
            =~= "Unknown format: ".spec_bytes());
    }
    out
}

/// The parse error for an unrecognized filter name, naming the offending
/// value.
pub fn unknown_filter_message(s: &str) -> (r: Vec<u8>)
    ensures
        r@ == "Unknown filter type: ".spec_bytes() + s.spec_bytes(),
{
    let mut out: Vec<u8> = Vec::new();
    push_all(&mut out, "Unknown filter type: ".as_bytes());
    push_all(&mut out, s.as_bytes());
    proof {
        assert(Seq::<u8>::empty() + "Unknown filter type: ".spec_bytes()
            =~= "Unknown filter type: ".spec_bytes());
    }
    out
}

} // verus!
