//! Theme discovery and loading for a text-styling library.
//!
//! Theme files are found under a directory, each is read as a property list
//! and interpreted as a theme, and the failures of every stage are gathered
//! into [`ThemeSetError`](theme_set::ThemeSetError) and, one layer up, into
//! [`LoadingError`].

use vstd::prelude::*;

pub mod discovery;
pub mod loader;
pub mod order;
pub mod path;
pub mod settings;
pub mod theme;
pub mod theme_set;

use crate::settings::SettingsError;
use crate::theme::{ParseSyntaxError, ParseThemeError};
use crate::theme_set::{ThemeSetError, WalkFailure};

verus! {

/// The failure domains that loading can end in.
#[derive(Clone, Copy, Debug, PartialEq, Eq, Structural)]
pub enum ErrorKind {
    /// Walking a directory tree failed.
    Traversal,
    /// Opening or reading a file failed.
    Io,
    /// The bytes of a theme file are not property-list syntax.
    SettingsSyntax,
    /// A well-formed settings tree does not fit the theme schema.
    ThemeSchema,
    /// A syntax definition is invalid.
    SyntaxDefinition,
    /// A path is not text, or does not name a file.
    PathValidity,
}

/// Common error type used by syntax and theme loading.
#[derive(Debug)]
pub enum LoadingError {
    /// error finding all the files in a directory
    WalkDir(WalkFailure),
    /// error reading a file
    Io(std::io::Error),
    /// a syntax file was invalid in some way
    ParseSyntax(ParseSyntaxError),
    /// a theme file was invalid in some way
    ParseTheme(ParseThemeError),
    /// a theme's property-list syntax was invalid in some way
    ReadSettings(SettingsError),
    /// A path given to a method was invalid.
    /// Possibly because it didn't reference a file or wasn't UTF-8.
    BadPath,
}

impl LoadingError {
    /// The failure domain of this error.
    pub open spec fn spec_kind(self) -> ErrorKind {
        match self {
            LoadingError::WalkDir(_) => ErrorKind::Traversal,
            LoadingError::Io(_) => ErrorKind::Io,
            LoadingError::ParseSyntax(_) => ErrorKind::SyntaxDefinition,
            LoadingError::ParseTheme(_) => ErrorKind::ThemeSchema,
            LoadingError::ReadSettings(_) => ErrorKind::SettingsSyntax,
            LoadingError::BadPath => ErrorKind::PathValidity,
        }
    }

    /// The one wide error that stands for the theme-loading error `error`.
    pub open spec fn widen(error: ThemeSetError) -> LoadingError {
        match error {
            ThemeSetError::WalkDir(e) => LoadingError::WalkDir(e),
            ThemeSetError::Io(e) => LoadingError::Io(e),
            ThemeSetError::ParseTheme(e) => LoadingError::ParseTheme(e),
            ThemeSetError::ReadSettings(e) => LoadingError::ReadSettings(e),
        }
    }

    /// The failure domain of this error.
    pub fn kind(&self) -> (k: ErrorKind)
        ensures
            k == self.spec_kind(),
    {
        match self {
            LoadingError::WalkDir(_) => ErrorKind::Traversal,
            LoadingError::Io(_) => ErrorKind::Io,
            LoadingError::ParseSyntax(_) => ErrorKind::SyntaxDefinition,
            LoadingError::ParseTheme(_) => ErrorKind::ThemeSchema,
            LoadingError::ReadSettings(_) => ErrorKind::SettingsSyntax,
            LoadingError::BadPath => ErrorKind::PathValidity,
        }
    }

    /// Gives back the theme-loading error that this error was widened from,
    /// with its payload, or the error itself where it stands for none.
    pub fn narrow(self) -> (r: Result<ThemeSetError, LoadingError>)
        ensures
            match r {
                Ok(e) => LoadingError::widen(e) == self,
                Err(e) => e == self && forall|t: ThemeSetError| LoadingError::widen(t) != self,
            },
    {
        match self {
            LoadingError::WalkDir(e) => Ok(ThemeSetError::WalkDir(e)),
            LoadingError::Io(e) => Ok(ThemeSetError::Io(e)),
            LoadingError::ParseTheme(e) => Ok(ThemeSetError::ParseTheme(e)),
            LoadingError::ReadSettings(e) => Ok(ThemeSetError::ReadSettings(e)),
            LoadingError::ParseSyntax(e) => Err(LoadingError::ParseSyntax(e)),
            LoadingError::BadPath => Err(LoadingError::BadPath),
        }
    }
}

impl From<SettingsError> for LoadingError {
    fn from(error: SettingsError) -> (r: LoadingError) {
        LoadingError::ReadSettings(error)
    }
}

impl vstd::std_specs::convert::FromSpecImpl<SettingsError> for LoadingError {
    open spec fn obeys_from_spec() -> bool {
        true
    }

    open spec fn from_spec(error: SettingsError) -> LoadingError {
        LoadingError::ReadSettings(error)
    }
}

impl From<std::io::Error> for LoadingError {
    fn from(error: std::io::Error) -> (r: LoadingError) {
        LoadingError::Io(error)
    }
}

impl vstd::std_specs::convert::FromSpecImpl<std::io::Error> for LoadingError {
    open spec fn obeys_from_spec() -> bool {
        true
    }

    open spec fn from_spec(error: std::io::Error) -> LoadingError {
        LoadingError::Io(error)
    }
}

impl From<ParseThemeError> for LoadingError {
    fn from(error: ParseThemeError) -> (r: LoadingError) {
        LoadingError::ParseTheme(error)
    }
}

impl vstd::std_specs::convert::FromSpecImpl<ParseThemeError> for LoadingError {
    open spec fn obeys_from_spec() -> bool {
        true
    }

    open spec fn from_spec(error: ParseThemeError) -> LoadingError {
        LoadingError::ParseTheme(error)
    }
}

impl From<ParseSyntaxError> for LoadingError {
    fn from(error: ParseSyntaxError) -> (r: LoadingError) {
        LoadingError::ParseSyntax(error)
    }
}

impl vstd::std_specs::convert::FromSpecImpl<ParseSyntaxError> for LoadingError {
    open spec fn obeys_from_spec() -> bool {
        true
    }

    open spec fn from_spec(error: ParseSyntaxError) -> LoadingError {
        LoadingError::ParseSyntax(error)
    }
}

impl From<ThemeSetError> for LoadingError {
    fn from(error: ThemeSetError) -> (r: LoadingError) {
        match error {
            ThemeSetError::WalkDir(e) => LoadingError::WalkDir(e),
            ThemeSetError::Io(e) => LoadingError::Io(e),
            ThemeSetError::ParseTheme(e) => LoadingError::ParseTheme(e),
            ThemeSetError::ReadSettings(e) => LoadingError::ReadSettings(e),
        }
    }
}

impl vstd::std_specs::convert::FromSpecImpl<ThemeSetError> for LoadingError {
    open spec fn obeys_from_spec() -> bool {
        true
    }

    open spec fn from_spec(error: ThemeSetError) -> LoadingError {
        LoadingError::widen(error)
    }
}

/// Widening keeps the failure domain: a theme-loading error and the wide
/// error that stands for it are of the same kind.
pub proof fn lemma_widen_keeps_kind(error: ThemeSetError)
    ensures
        LoadingError::widen(error).spec_kind() == error.spec_kind(),
{
}

/// Widening is injective: two theme-loading errors that widen to the same
/// error are the same error, payload included.
pub proof fn lemma_widen_injective(a: ThemeSetError, b: ThemeSetError)
    requires
        LoadingError::widen(a) == LoadingError::widen(b),
    ensures
        a == b,
{
}

/// Theme-loading errors of different variants never widen to the same variant.
pub proof fn lemma_widen_separates_kinds(a: ThemeSetError, b: ThemeSetError)
    requires
        a.spec_kind() != b.spec_kind(),
    ensures
        LoadingError::widen(a).spec_kind() != LoadingError::widen(b).spec_kind(),
{
}

} // verus!
