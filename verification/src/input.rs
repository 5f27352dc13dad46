//! What is decided about an input before its records are read: whether it is compressed,
//! and in which format its records are written.

use crate::text::push_char;
use vstd::prelude::*;
use vstd::string::StringExecFns;

verus! {

/// The formats of sequence records that are told apart.
#[derive(Clone, Copy, Debug, PartialEq, Eq, Structural)]
pub enum RecordFormat {
    /// Records that start with `>`.
    Fasta,
    /// Records that start with `@`.
    Fastq,
}

/// Why an input cannot be read as records.
#[derive(Clone, Copy, Debug, PartialEq, Eq, Structural)]
pub enum InputError {
    /// The input holds no byte.
    Empty,
    /// The input starts with this byte, which starts no known format.
    UnknownFormat(u8),
}

/// The extension that marks a compressed input: `gz`.
pub open spec fn gzip_extension() -> Seq<u8> {
    seq![0x67u8, 0x7au8]
}

/// The format of an input, told by the bytes at its start: `>` starts FASTA and `@`
/// starts FASTQ. No byte at all, or another first byte, is an error.
pub open spec fn detected(head: Seq<u8>) -> Result<RecordFormat, InputError> {
    if head.len() == 0 {
        Err(InputError::Empty)
    } else if head[0] == 0x3eu8 {
        Ok(RecordFormat::Fasta)
    } else if head[0] == 0x40u8 {
        Ok(RecordFormat::Fastq)
    } else {
        Err(InputError::UnknownFormat(head[0]))
    }
}

/// Whether a file name's extension marks a compressed input. A name without an extension
/// marks none.
pub fn is_gzip_extension(extension: Option<&[u8]>) -> (gz: bool)
    ensures
        gz == (extension.is_some() && extension.unwrap()@ == gzip_extension()),
{
    match extension {
        Some(e) => {
            let gz = e.len() == 2 && e[0] == 0x67u8 && e[1] == 0x7au8;
            assert(gz == (e@ =~= gzip_extension()));
            gz
        },
        None => false,
    }
}

/// Tells the format of an input by the bytes at its start.
pub fn detect_format(head: &[u8]) -> (format: Result<RecordFormat, InputError>)
    ensures
        format == detected(head@),
{
    if head.len() == 0 {
        Err(InputError::Empty)
    } else if head[0] == 0x3eu8 {
        Ok(RecordFormat::Fasta)
    } else if head[0] == 0x40u8 {
        Ok(RecordFormat::Fastq)
    } else {
        Err(InputError::UnknownFormat(head[0]))
    }
}

impl InputError {
    /// The error in words. An unknown first byte is shown as the character with its
    /// number.
    pub open spec fn text(self) -> Seq<char> {
        match self {
            InputError::Empty => "Input file is empty"@,
            InputError::UnknownFormat(b) => "Unknown file format: expected '>' or '@', got '"@.push(
                b as char,
            ) + "'"@,
        }
    }

    /// The error in words.
    pub fn message(&self) -> (text: String)
        ensures
            text@ == self.text(),
    {
        match self {
            InputError::Empty => String::from_str("Input file is empty"),
            InputError::UnknownFormat(b) => {
                let mut text = String::from_str(
                    "Unknown file format: expected '>' or '@', got '",
                );
                push_char(&mut text, *b as char);
                text.append("'");
                text
            },
        }
    }
}

} // verus!
