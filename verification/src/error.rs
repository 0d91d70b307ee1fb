use vstd::prelude::*;

verus! {

/// The ways in which reading or writing a map pattern can fail.
#[derive(Clone, Copy, Debug, PartialEq, Eq, Structural)]
pub enum Error {
    /// A height token outside parentheses is not a decimal digit.
    UltraMapConversionError,
    /// The text between parentheses is not a height level.
    UltraMapParsingError,
    /// The file that holds the pattern could not be read or written. The
    /// codec itself touches no file and never returns this error: it is here
    /// for the code that does.
    UltraMapIoError,
    /// A cell outside the grid was addressed.
    UltraMapIndexOutOfBounds,
    /// A prefab character stands for no prefab.
    UltraMapInvalidCharacter,
}

impl Error {
    /// The words that describe each error.
    pub open spec fn description_text(self) -> Seq<char> {
        match self {
            Error::UltraMapConversionError => "Error occurred while converting map"@,
            Error::UltraMapParsingError => "Error occurred while reading map"@,
            Error::UltraMapIoError => "Error occurred while writing to file"@,
            Error::UltraMapIndexOutOfBounds => "Invalid coordinates"@,
            Error::UltraMapInvalidCharacter => "Invalid character"@,
        }
    }

    /// Describes the error in words, for the one who reads a report of it.
    pub fn description(&self) -> (text: &'static str)
        ensures
            text@ == self.description_text(),
    {
        match self {
            Error::UltraMapConversionError => "Error occurred while converting map",
            Error::UltraMapParsingError => "Error occurred while reading map",
            Error::UltraMapIoError => "Error occurred while writing to file",
            Error::UltraMapIndexOutOfBounds => "Invalid coordinates",
            Error::UltraMapInvalidCharacter => "Invalid character",
        }
    }
}

} // verus!
