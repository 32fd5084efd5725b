//! The library's error type and the message each error is shown with.
use vstd::prelude::*;
use crate::numbers::IntErrorKind;
use crate::text::push_str;

verus! {

/// Everything that can go wrong in the library. Errors that come from
/// outside code (the image decoder, the file system, float parsing, thread
/// channels, C strings) carry the message that code gave.
#[derive(Debug)]
pub enum Error {
    /// A file with an extension that the given action does not accept.
    ExtensionNotAllowed(String, String),
    /// Reading or decoding an image failed.
    ImageError(String),
    /// A float could not be read.
    ParseFloat(String),
    /// An integer could not be read.
    ParseInt(IntErrorKind),
    /// The character set could not be used.
    CharacterError(String),
    /// A boundary condition is wrong.
    BoundaryError(String),
    /// A file or entry was not found.
    NotFound(&'static str),
    /// A string could not be handed to OpenGL.
    NullCString(String),
    /// A matrix operation failed.
    Matrix(&'static str),
    /// A file could not be interpreted.
    Parse(&'static str),
    /// Numeric integration failed.
    Integration(String),
    /// Input or output failed.
    Io(String),
    /// A mesh file could not be interpreted.
    MeshParse(String),
    /// A value could not be converted between float widths.
    FloatConversion,
    /// Any other error.
    Custom(String),
    /// A piecewise function got the wrong number of pieces.
    PieceWiseDims,
    /// An error that should not exist.
    Unimplemented,
    /// An error that cannot happen.
    Infallible,
    /// Vectors or matrices of the wrong dimensions.
    WrongDims,
    /// A number overflowed.
    Overflow,
    /// No message came from another thread.
    Receiver(String),
    /// Values could not be written to a file.
    Writing,
}

/// The message each error is shown with.
pub open spec fn error_message(e: Error) -> Seq<char> {
    match e {
        Error::CharacterError(s) => "Error while using character set: "@ + s@,
        Error::NullCString(s) => "Error while interacting with OpenGL: "@ + s@,
        Error::FloatConversion => "Unable to convert between f32 and f64"@,
        Error::Infallible => "This error can not happen"@,
        Error::Matrix(s) => "Matrix operation failed "@ + s@,
        Error::MeshParse(s) => "Unable to parse mesh file: "@ + s@,
        Error::ParseFloat(s) => "ParseFloat error: "@ + s@,
        Error::ParseInt(k) => "ParseInt error: "@ + k.message_spec(),
        Error::NotFound(s) => "Could not find file: "@ + s@,
        Error::BoundaryError(s) => "Boundary error: "@ + s@,
        Error::Io(s) => "IO error: "@ + s@,
        Error::ImageError(s) => "Image error: "@ + s@,
        Error::WrongDims => "One or more of the provided elements do not have the correct dimensions"@,
        Error::Custom(s) => s@,
        Error::ExtensionNotAllowed(f, a) => "Extension of file "@ + f@ + " is not allowed for "@
            + a@,
        Error::Overflow => "Overflow occurred"@,
        Error::Parse(s) => "Error while parsing file: "@ + s@,
        Error::PieceWiseDims =>
            "Number of arguments must be one more than number of breakpoints for a piecewise function definition to make sense"@,
        Error::Unimplemented => "This error should not exist. Report it to the developer"@,
        Error::Integration(s) => "Error on integration method occurred: "@ + s@,
        Error::Writing => "Error while writing to file values of differential equation"@,
        Error::Receiver(s) => "No message received on thread: "@ + s@,
    }
}

/// A string made of a literal followed by another text.
fn prefixed(lit: &str, rest: &str) -> (res: String)
    ensures
        res@ == lit@ + rest@,
{
    let mut res = String::from_str(lit);
    push_str(&mut res, rest);
    res
}

impl Error {
    /// An error of any other kind, with the given message.
    pub fn custom(message: &str) -> (res: Error)
        ensures
            res matches Error::Custom(m) && m@ == message@,
    {
        Error::Custom(String::from_str(message))
    }

    /// The message this error is shown with.
    pub fn message(&self) -> (res: String)
        ensures
            res@ == error_message(*self),
    {
        match self {
            Error::CharacterError(s) => prefixed("Error while using character set: ", s.as_str()),
            Error::NullCString(s) => prefixed(
                "Error while interacting with OpenGL: ",
                s.as_str(),
            ),
            Error::FloatConversion => String::from_str("Unable to convert between f32 and f64"),
            Error::Infallible => String::from_str("This error can not happen"),
            Error::Matrix(s) => prefixed("Matrix operation failed ", s),
            Error::MeshParse(s) => prefixed("Unable to parse mesh file: ", s.as_str()),
            Error::ParseFloat(s) => prefixed("ParseFloat error: ", s.as_str()),
            Error::ParseInt(k) => {
                let m = k.message();
                prefixed("ParseInt error: ", m.as_str())
            },
            Error::NotFound(s) => prefixed("Could not find file: ", s),
            Error::BoundaryError(s) => prefixed("Boundary error: ", s.as_str()),
            Error::Io(s) => prefixed("IO error: ", s.as_str()),
            Error::ImageError(s) => prefixed("Image error: ", s.as_str()),
            Error::WrongDims => String::from_str(
                "One or more of the provided elements do not have the correct dimensions",
            ),
            Error::Custom(s) => s.clone(),
            Error::ExtensionNotAllowed(f, a) => {
                let mut res = prefixed("Extension of file ", f.as_str());
                push_str(&mut res, " is not allowed for ");
                push_str(&mut res, a.as_str());
                res
            },
            Error::Overflow => String::from_str("Overflow occurred"),
            Error::Parse(s) => prefixed("Error while parsing file: ", s),
            Error::PieceWiseDims => String::from_str(
                "Number of arguments must be one more than number of breakpoints for a piecewise function definition to make sense",
            ),
            Error::Unimplemented => String::from_str(
                "This error should not exist. Report it to the developer",
            ),
            Error::Integration(s) => prefixed("Error on integration method occurred: ", s.as_str()),
            Error::Writing => String::from_str(
                "Error while writing to file values of differential equation",
            ),
            Error::Receiver(s) => prefixed("No message received on thread: ", s.as_str()),
        }
    }
}

} // verus!
