//! The shape of a loaded theme, and why a settings tree may fail to be one.
//!
//! A theme is built by a theme parser that lives outside this library. The
//! loader hands such values on untouched, so the types here are plain data.

use vstd::prelude::*;

verus! {

/// An RGBA colour.
#[derive(Clone, Copy, Debug, PartialEq, Eq, Structural)]
pub struct Color {
    pub r: u8,
    pub g: u8,
    pub b: u8,
    pub a: u8,
}

/// The font-style flags of a style.
#[derive(Clone, Copy, Debug, PartialEq, Eq, Structural)]
pub struct FontStyle {
    pub bold: bool,
    pub underline: bool,
    pub italic: bool,
}

/// What a scope rule changes: each part is optional.
#[derive(Clone, Copy, Debug, PartialEq, Eq, Structural)]
pub struct StyleModifier {
    pub foreground: Option<Color>,
    pub background: Option<Color>,
    pub font_style: Option<FontStyle>,
}

/// A scope rule: a scope-selector expression and the style it gives.
#[derive(Clone, Debug, PartialEq, Eq)]
pub struct ThemeItem {
    pub scope: String,
    pub style: StyleModifier,
}

/// The global, editor-wide settings of a theme. Every field is optional.
#[derive(Clone, Copy, Debug, PartialEq, Eq, Structural)]
pub struct ThemeSettings {
    pub foreground: Option<Color>,
    pub background: Option<Color>,
    pub caret: Option<Color>,
    pub line_highlight: Option<Color>,
    pub selection: Option<Color>,
    pub selection_foreground: Option<Color>,
    pub gutter: Option<Color>,
    pub gutter_foreground: Option<Color>,
}

/// A theme: an optional name, the global settings and the scope rules in
/// document order.
#[derive(Clone, Debug, PartialEq, Eq)]
pub struct Theme {
    pub name: Option<String>,
    pub settings: ThemeSettings,
    pub scopes: Vec<ThemeItem>,
}

/// Why a well-formed settings tree is not a theme.
#[derive(Clone, Debug, PartialEq, Eq)]
pub enum ParseThemeError {
    IncorrectUnderlineOption,
    IncorrectFontStyle(String),
    IncorrectColor,
    IncorrectSyntax,
    IncorrectSettings,
    UndefinedSettings,
    UndefinedScopeSettings(String),
    ColorShemeScopeIsNotObject,
    ColorShemeSettingsIsNotObject,
    ScopeSelectorIsNotString(String),
    DuplicateSettings,
}

/// Why a syntax definition could not be loaded. Syntax definitions are loaded
/// elsewhere; only their error takes part in [`crate::LoadingError`].
#[derive(Clone, Debug, PartialEq, Eq)]
pub enum ParseSyntaxError {
    InvalidYaml(String),
    EmptyFile,
    MissingMandatoryKey(String),
    RegexCompileError(String),
    InvalidScope(String),
    BadFileRef,
    MainMissing,
    TypeMismatch,
}

} // verus!
