//! The collection of themes, the steps that find and load them, and the
//! errors of theme loading.

use vstd::prelude::*;
use vstd::utf8::{encode_utf8, encode_utf8_decode_utf8};

use crate::discovery::{fails_at, root_is_no_folder, theme_paths};
use crate::loader::{file_of, next_state, settings_tree_of, LoadEvent, Loading};
use crate::order::{
    bytes_equal, bytes_less, lemma_lex_less_irreflexive, lemma_lex_less_total,
    lemma_lex_less_transitive, lex_less,
};
use crate::path::WalkEntry;
use crate::settings::{read_plist, SettingsError};
use crate::theme::{ParseThemeError, Theme};
use crate::ErrorKind;

verus! {

/// `walkdir::Error`: why a step of a directory walk failed. Carried in
/// [`WalkFailure::Step`] and never inspected.
#[verifier::external_type_specification]
#[verifier::external_body]
pub struct ExWalkDirError(walkdir::Error);

/// `std::io::Error`: why a file could not be opened or read. Carried as the
/// payload of the I/O variant and never inspected.
#[verifier::external_type_specification]
#[verifier::external_body]
pub struct ExIoError(std::io::Error);

/// Why a walk of a folder failed.
#[derive(Debug)]
pub enum WalkFailure {
    /// A step of the walk failed; this is what the walker reported.
    Step(walkdir::Error),
    /// The walk began at `path`, which is there but is no folder.
    RootNotFolder { path: String },
}

/// Why themes could not be found or loaded.
#[derive(Debug)]
pub enum ThemeSetError {
    /// error finding all the files in a directory
    WalkDir(WalkFailure),
    /// error reading a file
    Io(std::io::Error),
    /// a theme file was invalid in some way
    ParseTheme(ParseThemeError),
    /// a theme's property-list syntax was invalid in some way
    ReadSettings(SettingsError),
}

impl ThemeSetError {
    /// The failure domain of this error.
    pub open spec fn spec_kind(self) -> ErrorKind {
        match self {
            ThemeSetError::WalkDir(_) => ErrorKind::Traversal,
            ThemeSetError::Io(_) => ErrorKind::Io,
            ThemeSetError::ParseTheme(_) => ErrorKind::ThemeSchema,
            ThemeSetError::ReadSettings(_) => ErrorKind::SettingsSyntax,
        }
    }

    /// The failure domain of this error.
    pub fn kind(&self) -> (k: ErrorKind)
        ensures
            k == self.spec_kind(),
    {
        match self {
            ThemeSetError::WalkDir(_) => ErrorKind::Traversal,
            ThemeSetError::Io(_) => ErrorKind::Io,
            ThemeSetError::ParseTheme(_) => ErrorKind::ThemeSchema,
            ThemeSetError::ReadSettings(_) => ErrorKind::SettingsSyntax,
        }
    }
}

impl From<SettingsError> for ThemeSetError {
    fn from(error: SettingsError) -> (r: ThemeSetError) {
        ThemeSetError::ReadSettings(error)
    }
}

impl vstd::std_specs::convert::FromSpecImpl<SettingsError> for ThemeSetError {
    open spec fn obeys_from_spec() -> bool {
        true
    }

    open spec fn from_spec(error: SettingsError) -> ThemeSetError {
        ThemeSetError::ReadSettings(error)
    }
}

impl From<std::io::Error> for ThemeSetError {
    fn from(error: std::io::Error) -> (r: ThemeSetError) {
        ThemeSetError::Io(error)
    }
}

impl vstd::std_specs::convert::FromSpecImpl<std::io::Error> for ThemeSetError {
    open spec fn obeys_from_spec() -> bool {
        true
    }

    open spec fn from_spec(error: std::io::Error) -> ThemeSetError {
        ThemeSetError::Io(error)
    }
}

impl From<ParseThemeError> for ThemeSetError {
    fn from(error: ParseThemeError) -> (r: ThemeSetError) {
        ThemeSetError::ParseTheme(error)
    }
}

impl vstd::std_specs::convert::FromSpecImpl<ParseThemeError> for ThemeSetError {
    open spec fn obeys_from_spec() -> bool {
        true
    }

    open spec fn from_spec(error: ParseThemeError) -> ThemeSetError {
        ThemeSetError::ParseTheme(error)
    }
}

/// A collection of themes, found by name and held in the order of their
/// names. A theme without a name has no place in it.
///
/// The themes stand in a vector, so that the order in which they are
/// enumerated and the fact that no name occurs twice are both part of the
/// invariant [`ThemeSet::wf`].
#[derive(Debug)]
pub struct ThemeSet {
    themes: Vec<Theme>,
}

/// The name of a theme that has one.
pub open spec fn name_of(theme: Theme) -> Seq<char> {
    theme.name->Some_0@
}

/// The bytes of a theme's name, by which the themes are ordered.
pub open spec fn key_of(theme: Theme) -> Seq<u8> {
    encode_utf8(name_of(theme))
}

/// Whether every theme has a name and the names strictly ascend.
pub open spec fn ordered(themes: Seq<Theme>) -> bool {
    &&& forall|i: int| 0 <= i < themes.len() ==> (#[trigger] themes[i]).name is Some
    &&& forall|i: int, j: int|
        0 <= i < j < themes.len() ==> lex_less(
            #[trigger] key_of(themes[i]),
            #[trigger] key_of(themes[j]),
        )
}

/// Whether the place `at` of `themes` holds a theme of the name `name`.
pub open spec fn named_at(themes: Seq<Theme>, at: int, name: Seq<char>) -> bool {
    0 <= at < themes.len() && name_of(themes[at]) == name
}

/// Whether `after` is `before` with the named theme `theme` put in, and
/// `previous` the theme that left for it: the theme of the same name, whose
/// place `theme` took, or none, and then `theme` was put between two others.
pub open spec fn placed(
    before: Seq<Theme>,
    theme: Theme,
    after: Seq<Theme>,
    previous: Option<Theme>,
) -> bool {
    match previous {
        Some(left) => exists|at: int|
            #[trigger] named_at(before, at, name_of(theme)) && before[at] == left && after
                == before.update(at, theme),
        None => {
            &&& forall|at: int| !#[trigger] named_at(before, at, name_of(theme))
            &&& exists|at: int|
                0 <= at <= before.len() && after == #[trigger] before.insert(at, theme)
        },
    }
}

/// The place of `key` among the themes: behind every theme that comes before
/// it, which in an ordered sequence are the leading ones.
pub open spec fn place_of(themes: Seq<Theme>, key: Seq<u8>) -> int
    decreases themes.len(),
{
    if themes.len() == 0 {
        0
    } else if lex_less(key_of(themes.last()), key) {
        themes.len() as int
    } else {
        place_of(themes.drop_last(), key)
    }
}

/// The themes with `theme` put in: a theme without a name changes nothing, a
/// named one takes the place of the theme of its name or else its own place
/// in the order.
pub open spec fn put(themes: Seq<Theme>, theme: Theme) -> Seq<Theme> {
    let at = place_of(themes, key_of(theme));
    if theme.name is None {
        themes
    } else if at < themes.len() && key_of(themes[at]) == key_of(theme) {
        themes.update(at, theme)
    } else {
        themes.insert(at, theme)
    }
}

/// What a run of loads assembles to: the first failure, if one failed, else
/// the themes put in one after the other.
pub open spec fn assembled(loaded: Seq<Result<Theme, ThemeSetError>>) -> Result<
    Seq<Theme>,
    ThemeSetError,
>
    decreases loaded.len(),
{
    if loaded.len() == 0 {
        Ok(Seq::empty())
    } else {
        match assembled(loaded.drop_last()) {
            Err(error) => Err(error),
            Ok(themes) => match loaded.last() {
                Err(error) => Err(error),
                Ok(theme) => Ok(put(themes, theme)),
            },
        }
    }
}

/// In an ordered sequence the place of a key is where the themes before it end.
pub proof fn lemma_place_of(themes: Seq<Theme>, key: Seq<u8>, p: int)
    requires
        ordered(themes),
        0 <= p <= themes.len(),
        forall|j: int| 0 <= j < p ==> lex_less(#[trigger] key_of(themes[j]), key),
        p < themes.len() ==> !lex_less(key_of(themes[p]), key),
    ensures
        place_of(themes, key) == p,
    decreases themes.len(),
{
    if themes.len() > 0 {
        let last = themes.len() - 1;
        if lex_less(key_of(themes.last()), key) {
            if p < last {
                assert(lex_less(key_of(themes[p]), key_of(themes[last])));
                lemma_lex_less_transitive(key_of(themes[p]), key_of(themes[last]), key);
            }
        } else {
            if p == themes.len() {
                assert(lex_less(key_of(themes[last]), key));
            }
            let init = themes.drop_last();
            assert forall|i: int, j: int| 0 <= i < j < init.len() implies lex_less(
                #[trigger] key_of(init[i]),
                #[trigger] key_of(init[j]),
            ) by {
                assert(lex_less(key_of(themes[i]), key_of(themes[j])));
            }
            assert forall|j: int| 0 <= j < p implies lex_less(#[trigger] key_of(init[j]), key) by {
                assert(lex_less(key_of(themes[j]), key));
            }
            lemma_place_of(init, key, p);
        }
    }
}

/// Assembly fails fast: once a run of loads has failed, whatever is loaded
/// after it changes nothing.
pub proof fn lemma_assembled_fails_fast(loaded: Seq<Result<Theme, ThemeSetError>>, k: int)
    requires
        0 <= k <= loaded.len(),
        assembled(loaded.subrange(0, k)) is Err,
    ensures
        assembled(loaded) == assembled(loaded.subrange(0, k)),
    decreases loaded.len() - k,
{
    if k < loaded.len() {
        assert(loaded.subrange(0, k + 1).drop_last() =~= loaded.subrange(0, k));
        lemma_assembled_fails_fast(loaded, k + 1);
    } else {
        assert(loaded.subrange(0, k) =~= loaded);
    }
}

/// Two named themes whose names have the same bytes have the same name.
pub proof fn lemma_same_key_same_name(a: Theme, b: Theme)
    requires
        key_of(a) == key_of(b),
    ensures
        name_of(a) == name_of(b),
{
    encode_utf8_decode_utf8(name_of(a));
    encode_utf8_decode_utf8(name_of(b));
}

/// No two themes of an ordered sequence share a name.
pub proof fn lemma_names_unique(themes: Seq<Theme>, i: int, j: int)
    requires
        ordered(themes),
        0 <= i < themes.len(),
        0 <= j < themes.len(),
        i != j,
    ensures
        name_of(themes[i]) != name_of(themes[j]),
{
    lemma_lex_less_irreflexive(key_of(themes[i]));
    if i < j {
        assert(lex_less(key_of(themes[i]), key_of(themes[j])));
    } else {
        assert(lex_less(key_of(themes[j]), key_of(themes[i])));
    }
}

/// The items in the opposite order, so that popping hands them out first to last.
fn reversed<T>(items: Vec<T>) -> (r: Vec<T>)
    ensures
        r@.len() == items@.len(),
        forall|j: int| 0 <= j < r@.len() ==> #[trigger] r@[j] == items@[items@.len() - 1 - j],
{
    let ghost all = items@;
    let mut ahead = items;
    let mut pending: Vec<T> = Vec::new();
    while ahead.len() > 0
        invariant
            ahead@.len() + pending@.len() == all.len(),
            ahead@ == all.subrange(0, ahead@.len() as int),
            forall|j: int|
                0 <= j < pending@.len() ==> #[trigger] pending@[j] == all[all.len() - 1 - j],
        decreases ahead@.len(),
    {
        let item = ahead.pop();
        match item {
            Some(i) => pending.push(i),
            None => {},
        }
    }
    pending
}

/// The bytes of a theme's name, if it has one.
fn theme_key(theme: &Theme) -> (r: Option<&[u8]>)
    ensures
        match r {
            Some(key) => theme.name is Some && key@ == key_of(*theme),
            None => theme.name is None,
        },
{
    match &theme.name {
        Some(name) => Some(name.as_str().as_bytes()),
        None => None,
    }
}

impl ThemeSet {
    /// The themes in the order in which they are enumerated.
    pub closed spec fn entries(&self) -> Seq<Theme> {
        self.themes@
    }

    /// The invariant of the collection: every theme has a name, and the
    /// themes stand in the strict order of their names.
    pub open spec fn wf(&self) -> bool {
        ordered(self.entries())
    }

    /// Whether the theme at place `at` has the name `name`.
    pub open spec fn names_at(&self, at: int, name: Seq<char>) -> bool {
        named_at(self.entries(), at, name)
    }

    /// A collection without themes.
    pub fn new() -> (r: ThemeSet)
        ensures
            r.wf(),
            r.entries() == Seq::<Theme>::empty(),
    {
        ThemeSet { themes: Vec::new() }
    }

    /// How many themes the collection holds.
    pub fn len(&self) -> (n: usize)
        ensures
            n == self.entries().len(),
    {
        self.themes.len()
    }

    /// The themes, in the order of their names.
    pub fn themes(&self) -> (r: &Vec<Theme>)
        ensures
            r@ == self.entries(),
    {
        &self.themes
    }

    /// The first place whose theme does not come before `key`.
    fn lower_bound(&self, key: &[u8]) -> (p: usize)
        requires
            self.wf(),
        ensures
            p <= self.entries().len(),
            forall|j: int| 0 <= j < p ==> lex_less(#[trigger] key_of(self.entries()[j]), key@),
            p < self.entries().len() ==> !lex_less(key_of(self.entries()[p as int]), key@),
    {
        let mut p: usize = 0;
        while p < self.themes.len()
            invariant
                p <= self.entries().len(),
                self.wf(),
                forall|j: int| 0 <= j < p ==> lex_less(#[trigger] key_of(self.entries()[j]), key@),
            decreases self.entries().len() - p,
        {
            match theme_key(&self.themes[p]) {
                Some(own) => {
                    if !bytes_less(own, key) {
                        return p;
                    }
                },
                None => {
                    assert(self.entries()[p as int].name is Some);
                },
            }
            p += 1;
        }
        p
    }

    /// The theme of the given name, if the collection holds one.
    pub fn get(&self, name: &str) -> (r: Option<&Theme>)
        requires
            self.wf(),
        ensures
            match r {
                Some(theme) => exists|at: int|
                    #[trigger] self.names_at(at, name@) && self.entries()[at] == *theme,
                None => forall|at: int| !#[trigger] self.names_at(at, name@),
            },
    {
        let key = name.as_bytes();
        let mut i: usize = 0;
        while i < self.themes.len()
            invariant
                i <= self.entries().len(),
                self.wf(),
                key@ == encode_utf8(name@),
                forall|at: int| 0 <= at < i ==> !#[trigger] self.names_at(at, name@),
            decreases self.entries().len() - i,
        {
            match theme_key(&self.themes[i]) {
                Some(own) => {
                    if bytes_equal(own, key) {
                        proof {
                            encode_utf8_decode_utf8(name@);
                            encode_utf8_decode_utf8(name_of(self.entries()[i as int]));
                            assert(self.names_at(i as int, name@));
                        }
                        return Some(&self.themes[i]);
                    }
                },
                None => {
                    assert(self.entries()[i as int].name is Some);
                },
            }
            i += 1;
        }
        None
    }

    /// Puts a theme into the collection under its name.
    ///
    /// A theme without a name is not taken: it comes back as the error and
    /// the collection stays as it was. A named theme takes the place of the
    /// theme of the same name, which is returned, or else its own place in
    /// the order of names.
    pub fn insert(&mut self, theme: Theme) -> (r: Result<Option<Theme>, Theme>)
        requires
            old(self).wf(),
        ensures
            final(self).wf(),
            final(self).entries() == put(old(self).entries(), theme),
            match r {
                Err(back) => {
                    &&& theme.name is None
                    &&& back == theme
                },
                Ok(previous) => {
                    &&& theme.name is Some
                    &&& placed(old(self).entries(), theme, final(self).entries(), previous)
                },
            },
    {
        let ghost before = self.entries();
        let (p, same) = match theme_key(&theme) {
            Some(key) => {
                let p = self.lower_bound(key);
                let same = p < self.themes.len() && match theme_key(&self.themes[p]) {
                    Some(own) => !bytes_less(key, own),
                    None => false,
                };
                (p, same)
            },
            None => {
                return Err(theme);
            },
        };
        let ghost key = key_of(theme);
        proof {
            lemma_place_of(before, key, p as int);
        }
        if same {
            proof {
                lemma_lex_less_total(key_of(before[p as int]), key);
                lemma_same_key_same_name(before[p as int], theme);
            }
            self.themes.push(theme);
            let previous = self.themes.swap_remove(p);
            proof {
                let after = self.entries();
                assert(after =~= before.update(p as int, theme));
                assert forall|i: int| 0 <= i < after.len() implies key_of(#[trigger] after[i])
                    == key_of(before[i]) && after[i].name is Some by {}
                assert(ordered(after)) by {
                    assert forall|i: int, j: int| 0 <= i < j < after.len() implies lex_less(
                        #[trigger] key_of(after[i]),
                        #[trigger] key_of(after[j]),
                    ) by {
                        assert(lex_less(key_of(before[i]), key_of(before[j])));
                    }
                }
                assert(named_at(before, p as int, name_of(theme)));
            }
            Ok(Some(previous))
        } else {
            proof {
                assert forall|j: int| p <= j < before.len() implies lex_less(
                    key,
                    #[trigger] key_of(before[j]),
                ) by {
                    assert(lex_less(key, key_of(before[p as int])));
                    if j > p {
                        assert(lex_less(key_of(before[p as int]), key_of(before[j])));
                        lemma_lex_less_transitive(key, key_of(before[p as int]), key_of(before[j]));
                    }
                }
                lemma_lex_less_irreflexive(key);
                assert forall|at: int| !#[trigger] named_at(before, at, name_of(theme)) by {
                    if named_at(before, at, name_of(theme)) {
                        assert(key_of(before[at]) == key);
                        if at < p {
                            assert(lex_less(key_of(before[at]), key));
                        } else {
                            assert(lex_less(key, key_of(before[at])));
                        }
                    }
                }
            }
            self.themes.insert(p, theme);
            proof {
                let after = self.entries();
                assert(after == before.insert(p as int, theme));
                assert(ordered(after)) by {
                    assert forall|i: int| 0 <= i < after.len() implies (#[trigger] after[i]).name is Some by {
                        if i < p {
                            assert(after[i] == before[i]);
                        } else if i > p {
                            assert(after[i] == before[i - 1]);
                        }
                    }
                    assert forall|i: int, j: int| 0 <= i < j < after.len() implies lex_less(
                        #[trigger] key_of(after[i]),
                        #[trigger] key_of(after[j]),
                    ) by {
                        if j < p {
                            assert(lex_less(key_of(before[i]), key_of(before[j])));
                        } else if j == p {
                            assert(lex_less(key_of(before[i]), key));
                        } else if i < p {
                            assert(lex_less(key_of(before[i]), key_of(before[j - 1])));
                        } else if i == p {
                            assert(lex_less(key, key_of(before[j - 1])));
                        } else {
                            assert(lex_less(key_of(before[i - 1]), key_of(before[j - 1])));
                        }
                    }
                }
            }
            Ok(None)
        }
    }

    /// Takes the outcome of one load into a collection that is being
    /// assembled, and fails fast: a failed load ends the assembly with its
    /// error and no collection is left. A loaded theme is put in as `insert`
    /// does; one without a name is left out, since it cannot be found by name.
    pub fn collect(self, loaded: Result<Theme, ThemeSetError>) -> (r: Result<ThemeSet, ThemeSetError>)
        requires
            self.wf(),
        ensures
            match loaded {
                Err(error) => r == Err::<ThemeSet, ThemeSetError>(error),
                Ok(theme) => {
                    &&& r is Ok
                    &&& r->Ok_0.wf()
                    &&& r->Ok_0.entries() == put(self.entries(), theme)
                },
            },
    {
        match loaded {
            Err(error) => Err(error),
            Ok(theme) => {
                let mut set = self;
                let _ = set.insert(theme);
                Ok(set)
            },
        }
    }

    /// Assembles a collection from the outcomes of a run of loads, in their
    /// order, and fails fast: if a load failed, the result is the first
    /// failure and no collection; else it holds the loaded themes, each put
    /// in as `insert` does.
    pub fn assemble(loaded: Vec<Result<Theme, ThemeSetError>>) -> (r: Result<ThemeSet, ThemeSetError>)
        ensures
            match assembled(loaded@) {
                Err(error) => r == Err::<ThemeSet, ThemeSetError>(error),
                Ok(themes) => r is Ok && r->Ok_0.wf() && r->Ok_0.entries() == themes,
            },
    {
        let ghost all = loaded@;
        let mut pending = reversed(loaded);
        let ghost stack = pending@;
        let mut set = ThemeSet::new();
        proof {
            assert(all.subrange(0, 0) =~= Seq::empty());
        }
        while pending.len() > 0
            invariant
                all == loaded@,
                stack.len() == all.len(),
                pending@.len() <= all.len(),
                forall|j: int| 0 <= j < stack.len() ==> #[trigger] stack[j] == all[all.len() - 1 - j],
                pending@ == stack.subrange(0, pending@.len() as int),
                set.wf(),
                assembled(all.subrange(0, all.len() - pending@.len())) == Ok::<
                    Seq<Theme>,
                    ThemeSetError,
                >(set.entries()),
            decreases pending@.len(),
        {
            let ghost at = all.len() - pending@.len();
            let outcome = pending.pop();
            proof {
                assert(all.subrange(0, at + 1).drop_last() =~= all.subrange(0, at));
                assert(all.subrange(0, at + 1).last() == all[at]);
                assert(stack[all.len() - 1 - at] == all[at]);
            }
            match outcome {
                Some(Ok(theme)) => {
                    let _ = set.insert(theme);
                },
                Some(Err(error)) => {
                    proof {
                        lemma_assembled_fails_fast(all, at + 1);
                    }
                    return Err(error);
                },
                None => {},
            }
        }
        proof {
            assert(all.subrange(0, all.len() as int) =~= all);
        }
        Ok(set)
    }

    /// Returns all the themes found in a walk of a folder, good for
    /// enumerating before loading one with `get_theme`.
    ///
    /// `walk` holds the steps of the walk in the order they were made; the
    /// first is the folder itself. If that step found something that is no
    /// folder, the result is a traversal failure that names it. Else, if
    /// every step succeeded, the result is the paths of the theme files, in
    /// walk order; other files and all directories are passed over. If a
    /// step failed, the result is the first failure and no paths.
    pub fn discover_theme_paths(walk: Vec<Result<WalkEntry, walkdir::Error>>) -> (r: Result<
        Vec<String>,
        ThemeSetError,
    >)
        ensures
            match r {
                Ok(paths) => {
                    &&& !root_is_no_folder(walk@)
                    &&& forall|i: int| 0 <= i < walk@.len() ==> (#[trigger] walk@[i]) is Ok
                    &&& paths@ == theme_paths(walk@)
                },
                Err(error) => if root_is_no_folder(walk@) {
                    error == ThemeSetError::WalkDir(
                        WalkFailure::RootNotFolder { path: walk@[0]->Ok_0.path },
                    )
                } else {
                    exists|at: int| #[trigger] fails_at(walk@, at, error)
                },
            },
    {
        if walk.len() > 0 {
            match &walk[0] {
                Ok(root) => {
                    if !root.is_dir {
                        let path = root.path.clone();
                        return Err(ThemeSetError::WalkDir(WalkFailure::RootNotFolder { path }));
                    }
                },
                Err(_) => {},
            }
        }
        let ghost all = walk@;
        let mut pending = reversed(walk);
        let ghost stack = pending@;
        let mut themes: Vec<String> = Vec::new();
        while pending.len() > 0
            invariant
                all == walk@,
                !root_is_no_folder(all),
                stack.len() == all.len(),
                pending@.len() <= all.len(),
                forall|j: int| 0 <= j < stack.len() ==> #[trigger] stack[j] == all[all.len() - 1 - j],
                pending@ == stack.subrange(0, pending@.len() as int),
                forall|i: int| 0 <= i < all.len() - pending@.len() ==> (#[trigger] all[i]) is Ok,
                themes@ == theme_paths(all.subrange(0, all.len() - pending@.len())),
            decreases pending@.len(),
        {
            let ghost at = all.len() - pending@.len();
            let step = pending.pop();
            proof {
                assert(all.subrange(0, at + 1).drop_last() =~= all.subrange(0, at));
                assert(all.subrange(0, at + 1).last() == all[at]);
                assert(stack[all.len() - 1 - at] == all[at]);
            }
            match step {
                Some(Ok(entry)) => {
                    if entry.is_theme_file() {
                        themes.push(entry.path);
                    }
                },
                Some(Err(error)) => {
                    proof {
                        assert(all[at] == Err::<WalkEntry, walkdir::Error>(error));
                        assert(fails_at(all, at, ThemeSetError::WalkDir(WalkFailure::Step(error))));
                    }
                    return Err(ThemeSetError::WalkDir(WalkFailure::Step(error)));
                },
                None => {},
            }
        }
        proof {
            assert(all.subrange(0, all.len() as int) =~= all);
        }
        Ok(themes)
    }

    /// The bytes of a theme file that was opened and read, or the failure to
    /// do so as an I/O error of theme loading, its cause unchanged.
    pub fn read_file(opened: Result<Vec<u8>, std::io::Error>) -> (r: Result<Vec<u8>, ThemeSetError>)
        ensures
            r == file_of(opened),
    {
        match opened {
            Ok(bytes) => Ok(bytes),
            Err(error) => Err(ThemeSetError::Io(error)),
        }
    }

    /// The settings tree of a theme file that was opened and read: the I/O
    /// error if it was not, the settings error if its bytes are no property
    /// list.
    pub fn read_plist(opened: Result<Vec<u8>, std::io::Error>) -> (r: Result<
        plist::Value,
        ThemeSetError,
    >)
        ensures
            r == settings_tree_of(opened),
    {
        match Self::read_file(opened) {
            Err(error) => Err(error),
            Ok(bytes) => match read_plist(bytes.as_slice()) {
                Ok(tree) => Ok(tree),
                Err(error) => Err(ThemeSetError::ReadSettings(error)),
            },
        }
    }

    /// Loads a theme from a theme file, one step at a time: given where the
    /// load stands and what the caller reports of the step it was asked for,
    /// says where the load stands next.
    ///
    /// A load begins with [`Loading::start`] and is over in
    /// [`Loading::Finished`], which holds the theme or the first failure.
    pub fn get_theme(state: Loading, event: LoadEvent) -> (r: Loading)
        ensures
            r == next_state(state, event),
    {
        match (state, event) {
            (Loading::Opening { path }, LoadEvent::Opened(opened)) => {
                match Self::read_plist(opened) {
                    Ok(settings) => Loading::Interpreting { settings },
                    Err(error) => Loading::Finished { outcome: Err(error) },
                }
            },
            (Loading::Interpreting { settings }, LoadEvent::Interpreted(interpreted)) => {
                match interpreted {
                    Ok(theme) => Loading::Finished { outcome: Ok(theme) },
                    Err(error) => Loading::Finished { outcome: Err(ThemeSetError::ParseTheme(error)) },
                }
            },
            (state, _) => state,
        }
    }
}

} // verus!
