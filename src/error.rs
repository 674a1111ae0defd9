use crate::version::spec_parse_version;
use glutin::error::Error as GlutinError;
use vstd::prelude::*;

verus! {

/// glutin's error, carried unread by `Error::Glutin`.
#[verifier::external_type_specification]
#[verifier::external_body]
pub struct ExGlutinError(GlutinError);

/// Error of the creation of an OpenGL sprite renderer.
#[derive(Debug)]
pub enum Error {
    /// The graphics layer failed.
    Glutin(GlutinError),
    /// Either width or height were zero.
    BadDimensions,
    /// The version string of OpenGL could not be had, or was not a version.
    CouldNotQueryVersion,
    /// The OpenGL major version is smaller than 2.
    UnsupportedOpenGlVersion,
}

impl From<GlutinError> for Error {
    fn from(value: GlutinError) -> (r: Self)
        ensures
            r == Error::Glutin(value),
    {
        Error::Glutin(value)
    }
}

impl vstd::std_specs::convert::FromSpecImpl<GlutinError> for Error {
    open spec fn obeys_from_spec() -> bool {
        true
    }

    open spec fn from_spec(v: GlutinError) -> Self {
        Error::Glutin(v)
    }
}

/// The OpenGL major version that the version string `version` gives, where
/// the renderer supports it: version 2 or later.
pub fn check_gl_version(version: Option<&[u8]>) -> (r: Result<u8, Error>)
    ensures
        match version {
            None => r matches Err(Error::CouldNotQueryVersion),
            Some(s) => match spec_parse_version(s@) {
                None => r matches Err(Error::CouldNotQueryVersion),
                Some(v) => if v.0 < 2 {
                    r matches Err(Error::UnsupportedOpenGlVersion)
                } else {
                    r matches Ok(m) && m == v.0
                },
            },
        },
{
    let s = match version {
        Some(s) => s,
        None => {
            return Err(Error::CouldNotQueryVersion);
        },
    };
    match crate::version::parse_version_number(s) {
        None => Err(Error::CouldNotQueryVersion),
        Some((major, _)) => {
            if major < 2 {
                Err(Error::UnsupportedOpenGlVersion)
            } else {
                Ok(major)
            }
        },
    }
}

/// Checks the size of a window surface: neither side may be zero.
pub fn check_dimensions(width: u32, height: u32) -> (r: Result<(), Error>)
    ensures
        r is Ok <==> width > 0 && height > 0,
        r is Err ==> r matches Err(Error::BadDimensions),
{
    if width == 0 || height == 0 {
        Err(Error::BadDimensions)
    } else {
        Ok(())
    }
}

} // verus!
