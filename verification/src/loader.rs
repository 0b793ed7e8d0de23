//! Loading one theme, as the decisions between the steps that touch the
//! outside world.
//!
//! Opening the file and interpreting its settings tree as a theme are done by
//! the caller. What is decided here is what to do next after each of them,
//! and which error a failed step becomes.

use vstd::prelude::*;

use crate::settings::{plist_document, readable, settings_in, SettingsError};
use crate::theme::{ParseThemeError, Theme};
use crate::theme_set::ThemeSetError;

verus! {

/// Where the loading of one theme stands, which is also what the caller is
/// to do next.
#[derive(Debug)]
pub enum Loading {
    /// Open the file at `path` and report its bytes, or why it could not be read.
    Opening { path: String },
    /// Interpret `settings` as a theme and report the theme, or why it is none.
    Interpreting { settings: plist::Value },
    /// Nothing is left to do: this is the theme, or the first failure.
    Finished { outcome: Result<Theme, ThemeSetError> },
}

/// What the caller reports back after a step.
#[derive(Debug)]
pub enum LoadEvent {
    /// The file was read to its end, or could not be.
    Opened(Result<Vec<u8>, std::io::Error>),
    /// The settings tree was interpreted, or does not fit the theme schema.
    Interpreted(Result<Theme, ParseThemeError>),
}

/// The bytes of an opened file, or the I/O failure as a theme-loading error.
pub open spec fn file_of(opened: Result<Vec<u8>, std::io::Error>) -> Result<
    Vec<u8>,
    ThemeSetError,
> {
    match opened {
        Ok(bytes) => Ok(bytes),
        Err(error) => Err(ThemeSetError::Io(error)),
    }
}

/// The settings tree of an opened file: the I/O failure if it could not be
/// read, else what the settings reader makes of its bytes.
pub open spec fn settings_tree_of(opened: Result<Vec<u8>, std::io::Error>) -> Result<
    plist::Value,
    ThemeSetError,
> {
    match opened {
        Err(error) => Err(ThemeSetError::Io(error)),
        Ok(bytes) => match settings_in(bytes@) {
            Ok(tree) => Ok(tree),
            Err(error) => Err(ThemeSetError::ReadSettings(error)),
        },
    }
}

/// The outcome of the theme parser as the outcome of loading.
pub open spec fn theme_of(interpreted: Result<Theme, ParseThemeError>) -> Result<
    Theme,
    ThemeSetError,
> {
    match interpreted {
        Ok(theme) => Ok(theme),
        Err(error) => Err(ThemeSetError::ParseTheme(error)),
    }
}

/// The state that follows `state` when the caller reports `event`.
///
/// A file that was read goes to the settings reader: its tree is to be
/// interpreted next, its failure ends the load. An interpreted tree ends the
/// load with the theme or the parser's failure. An event that the state does
/// not wait for changes nothing.
pub open spec fn next_state(state: Loading, event: LoadEvent) -> Loading {
    match (state, event) {
        (Loading::Opening { path }, LoadEvent::Opened(opened)) => match settings_tree_of(opened) {
            Ok(settings) => Loading::Interpreting { settings },
            Err(error) => Loading::Finished { outcome: Err(error) },
        },
        (Loading::Interpreting { settings }, LoadEvent::Interpreted(interpreted)) => {
            Loading::Finished { outcome: theme_of(interpreted) }
        },
        (state, _) => state,
    }
}

/// The outcome of a whole load: of opening the file, and of interpreting the
/// tree that the settings reader made of it, where it made one.
pub open spec fn load_outcome(
    opened: Result<Vec<u8>, std::io::Error>,
    interpret: spec_fn(plist::Value) -> Result<Theme, ParseThemeError>,
) -> Result<Theme, ThemeSetError> {
    match settings_tree_of(opened) {
        Ok(settings) => theme_of(interpret(settings)),
        Err(error) => Err(error),
    }
}

impl Loading {
    /// The state in which the loading of the theme at `path` begins.
    pub fn start(path: String) -> (r: Loading)
        ensures
            r == (Loading::Opening { path }),
    {
        Loading::Opening { path }
    }

    /// The outcome, once the load has finished; else the state itself.
    pub fn finish(self) -> (r: Result<Result<Theme, ThemeSetError>, Loading>)
        ensures
            match self {
                Loading::Finished { outcome } => r == Ok::<Result<Theme, ThemeSetError>, Loading>(
                    outcome,
                ),
                _ => r == Err::<Result<Theme, ThemeSetError>, Loading>(self),
            },
    {
        match self {
            Loading::Finished { outcome } => Ok(outcome),
            other => Err(other),
        }
    }
}

/// A load that is fed what its steps ask for ends after two events at most,
/// with [`load_outcome`]: the I/O failure, else the settings failure, else
/// what the theme parser said of the tree. So the outcome is a function of
/// the file's contents and of the parser, and loading one file twice gives
/// the same outcome.
pub proof fn lemma_load_outcome(
    path: String,
    opened: Result<Vec<u8>, std::io::Error>,
    interpret: spec_fn(plist::Value) -> Result<Theme, ParseThemeError>,
)
    ensures
        match next_state(Loading::Opening { path }, LoadEvent::Opened(opened)) {
            Loading::Opening { .. } => false,
            Loading::Interpreting { settings } => {
                &&& settings_tree_of(opened) == Ok::<plist::Value, ThemeSetError>(settings)
                &&& next_state(
                    Loading::Interpreting { settings },
                    LoadEvent::Interpreted(interpret(settings)),
                ) == (Loading::Finished { outcome: load_outcome(opened, interpret) })
            },
            Loading::Finished { outcome } => outcome is Err && outcome == load_outcome(
                opened,
                interpret,
            ),
        },
{
}

/// The stage at which a load fails decides the kind of its error: an
/// unreadable file gives an I/O error; bytes that the settings reader turns
/// away or that are no property list give a settings error; and a tree that
/// is no theme gives a theme error. No failure of one stage is reported as
/// that of another.
pub proof fn lemma_failure_kinds(
    opened: Result<Vec<u8>, std::io::Error>,
    interpret: spec_fn(plist::Value) -> Result<Theme, ParseThemeError>,
)
    ensures
        match opened {
            Err(error) => load_outcome(opened, interpret) == Err::<Theme, ThemeSetError>(
                ThemeSetError::Io(error),
            ),
            Ok(bytes) => if !readable(bytes@) {
                load_outcome(opened, interpret) == Err::<Theme, ThemeSetError>(
                    ThemeSetError::ReadSettings(SettingsError::DateElement),
                )
            } else {
                match plist_document(bytes@) {
                    Err(error) => load_outcome(opened, interpret) == Err::<Theme, ThemeSetError>(
                        ThemeSetError::ReadSettings(SettingsError::Plist(error)),
                    ),
                    Ok(settings) => match interpret(settings) {
                        Err(error) => load_outcome(opened, interpret) == Err::<
                            Theme,
                            ThemeSetError,
                        >(ThemeSetError::ParseTheme(error)),
                        Ok(theme) => load_outcome(opened, interpret) == Ok::<Theme, ThemeSetError>(
                            theme,
                        ),
                    },
                }
            },
        },
{
}

} // verus!
