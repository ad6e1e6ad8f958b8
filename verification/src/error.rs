//! The errors that decoding, lookup and extraction can report.

use vstd::prelude::*;

verus! {

/// Why a byte stream could not deliver what was asked of it.
#[derive(Clone, Copy, Debug, PartialEq, Eq, Structural)]
pub enum IoError {
    /// A read reached past the last byte of the stream.
    EndOfFile,
    /// The inflater rejected a compressed payload.
    DecompressionFailure,
    /// An inflated payload is not as long as its header declares.
    SizeMismatch,
}

/// Everything that can go wrong while reading an archive.
#[derive(Clone, Copy, Debug, PartialEq, Eq, Structural)]
pub enum ZipError {
    /// The underlying stream failed.
    SomeIoError(IoError),
    /// No end-of-central-directory signature occurs in the stream.
    NotAZipFile,
    /// The extracted bytes do not have the CRC-32 that the header declares.
    CrcError,
    /// No entry of the central directory has the requested name.
    FileNotFoundInArchive,
    /// A record starts with this value instead of its signature.
    InvalidSignature(u32),
    /// A name or comment is not valid UTF-8.
    NonUTF8Field,
    /// A name, comment or extra field is longer than a 16-bit length can say.
    TooLongField,
    /// A local header sets flag bits that this reader does not handle; the
    /// flag word is attached.
    UnsupportedFlags(u16),
    /// An entry uses a compression method other than Store and Deflate; the
    /// method id is attached.
    UnsupportedMethod(u16),
    /// The end record describes an archive that spans several disks.
    MultiDiskArchive,
    /// A size, offset or count holds the marker of the ZIP64 extension.
    Zip64Archive,
}

/// What the operations of this crate return.
pub type ZipResult<T> = Result<T, ZipError>;

/// The hexadecimal digit of a value below 16.
pub open spec fn hex_digit(n: int) -> char {
    if n == 0 {
        '0'
    } else if n == 1 {
        '1'
    } else if n == 2 {
        '2'
    } else if n == 3 {
        '3'
    } else if n == 4 {
        '4'
    } else if n == 5 {
        '5'
    } else if n == 6 {
        '6'
    } else if n == 7 {
        '7'
    } else if n == 8 {
        '8'
    } else if n == 9 {
        '9'
    } else if n == 10 {
        'a'
    } else if n == 11 {
        'b'
    } else if n == 12 {
        'c'
    } else if n == 13 {
        'd'
    } else if n == 14 {
        'e'
    } else {
        'f'
    }
}

/// The eight hexadecimal digits of `v`, the highest first.
pub open spec fn hex_digits(v: u32) -> Seq<char> {
    seq![
        hex_digit(v as int / 0x1000_0000),
        hex_digit(v as int / 0x100_0000 % 16),
        hex_digit(v as int / 0x10_0000 % 16),
        hex_digit(v as int / 0x1_0000 % 16),
        hex_digit(v as int / 0x1000 % 16),
        hex_digit(v as int / 0x100 % 16),
        hex_digit(v as int / 0x10 % 16),
        hex_digit(v as int % 16),
    ]
}

/// How many hexadecimal digits of `v` are shown: all that are needed, and
/// at least six.
pub open spec fn hex_width(v: u32) -> int {
    if v >= 0x1000_0000 {
        8
    } else if v >= 0x100_0000 {
        7
    } else {
        6
    }
}

/// `v` in hexadecimal behind `0x`, filled up with zeros to six digits.
pub open spec fn hex_literal(v: u32) -> Seq<char> {
    "0x"@ + hex_digits(v).subrange(8 - hex_width(v), 8)
}

/// The hexadecimal digit of a value below 16, as text.
fn hex_digit_text(n: u32) -> (s: &'static str)
    requires
        n < 16,
    ensures
        s@ == seq![hex_digit(n as int)],
{
    proof {
        reveal_strlit("0");
        reveal_strlit("1");
        reveal_strlit("2");
        reveal_strlit("3");
        reveal_strlit("4");
        reveal_strlit("5");
        reveal_strlit("6");
        reveal_strlit("7");
        reveal_strlit("8");
        reveal_strlit("9");
        reveal_strlit("a");
        reveal_strlit("b");
        reveal_strlit("c");
        reveal_strlit("d");
        reveal_strlit("e");
        reveal_strlit("f");
    }
    let s = if n == 0 {
        "0"
    } else if n == 1 {
        "1"
    } else if n == 2 {
        "2"
    } else if n == 3 {
        "3"
    } else if n == 4 {
        "4"
    } else if n == 5 {
        "5"
    } else if n == 6 {
        "6"
    } else if n == 7 {
        "7"
    } else if n == 8 {
        "8"
    } else if n == 9 {
        "9"
    } else if n == 10 {
        "a"
    } else if n == 11 {
        "b"
    } else if n == 12 {
        "c"
    } else if n == 13 {
        "d"
    } else if n == 14 {
        "e"
    } else {
        "f"
    };
    assert(s@ =~= seq![hex_digit(n as int)]);
    s
}

/// Appends `v` in hexadecimal behind `0x`, filled up with zeros to six
/// digits.
fn push_hex(s: &mut String, v: u32)
    ensures
        final(s)@ == old(s)@ + hex_literal(v),
{
    s.append("0x");
    if v >= 0x1000_0000 {
        s.append(hex_digit_text(v / 0x1000_0000));
    }
    if v >= 0x100_0000 {
        s.append(hex_digit_text(v / 0x100_0000 % 16));
    }
    s.append(hex_digit_text(v / 0x10_0000 % 16));
    s.append(hex_digit_text(v / 0x1_0000 % 16));
    s.append(hex_digit_text(v / 0x1000 % 16));
    s.append(hex_digit_text(v / 0x100 % 16));
    s.append(hex_digit_text(v / 0x10 % 16));
    s.append(hex_digit_text(v % 16));
    assert(s@ =~= old(s)@ + hex_literal(v));
}

impl IoError {
    /// What the error says of itself.
    pub open spec fn text(self) -> Seq<char> {
        match self {
            IoError::EndOfFile => "end of file"@,
            IoError::DecompressionFailure => "decompression failure"@,
            IoError::SizeMismatch => "decompressed size differs from the declared size"@,
        }
    }

    /// A description of the error for a reader.
    pub fn message(&self) -> (s: String)
        ensures
            s@ == self.text(),
    {
        match self {
            IoError::EndOfFile => "end of file".to_owned(),
            IoError::DecompressionFailure => "decompression failure".to_owned(),
            IoError::SizeMismatch => "decompressed size differs from the declared size".to_owned(),
        }
    }
}

impl ZipError {
    /// What the error says of itself.
    pub open spec fn text(self) -> Seq<char> {
        match self {
            ZipError::SomeIoError(e) => e.text(),
            ZipError::NotAZipFile => "not a ZIP file"@,
            ZipError::CrcError => "CRC mismatch"@,
            ZipError::FileNotFoundInArchive => "file not found in archive"@,
            ZipError::InvalidSignature(magic) => "invalid ZIP signature "@ + hex_literal(magic),
            ZipError::NonUTF8Field => "file name or comment is set to UTF-8 encoded but it isn't"@,
            ZipError::TooLongField => "file name, comment or extra field is too long (> 64KB)"@,
            ZipError::UnsupportedFlags(flags) => "unsupported general purpose flags "@
                + hex_literal(flags as u32),
            ZipError::UnsupportedMethod(method) => "unsupported compression method "@
                + hex_literal(method as u32),
            ZipError::MultiDiskArchive => "archive spans several disks"@,
            ZipError::Zip64Archive => "ZIP64 archives are not supported"@,
        }
    }

    /// A description of the error for a reader. A signature, a flag word
    /// or a method id is shown in hexadecimal.
    pub fn message(&self) -> (s: String)
        ensures
            s@ == self.text(),
    {
        match self {
            ZipError::SomeIoError(e) => e.message(),
            ZipError::NotAZipFile => "not a ZIP file".to_owned(),
            ZipError::CrcError => "CRC mismatch".to_owned(),
            ZipError::FileNotFoundInArchive => "file not found in archive".to_owned(),
            ZipError::InvalidSignature(magic) => {
                let mut s = "invalid ZIP signature ".to_owned();
                push_hex(&mut s, *magic);
                s
            },
            ZipError::NonUTF8Field => {
                "file name or comment is set to UTF-8 encoded but it isn't".to_owned()
            },
            ZipError::TooLongField => {
                "file name, comment or extra field is too long (> 64KB)".to_owned()
            },
            ZipError::UnsupportedFlags(flags) => {
                let mut s = "unsupported general purpose flags ".to_owned();
                push_hex(&mut s, *flags as u32);
                s
            },
            ZipError::UnsupportedMethod(method) => {
                let mut s = "unsupported compression method ".to_owned();
                push_hex(&mut s, *method as u32);
                s
            },
            ZipError::MultiDiskArchive => "archive spans several disks".to_owned(),
            ZipError::Zip64Archive => "ZIP64 archives are not supported".to_owned(),
        }
    }
}

} // verus!
